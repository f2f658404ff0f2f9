use vstd::prelude::*;

use vstd::string::StringSliceAdditionalSpecFns;

use crate::error::{AccountsDbError, AdbResult};

verus! {

/// ASCII codes the snapshot naming scheme relies on.
pub const SLASH: u8 = 47;
pub const DOT: u8 = 46;
pub const DASH: u8 = 45;
pub const PLUS: u8 = 43;
pub const ZERO: u8 = 48;

/// Number of digits snapshot slots are zero-padded to.
pub const SLOT_DIGITS: usize = 12;

pub open spec fn is_digit(c: u8) -> bool {
    ZERO <= c <= 57
}

/// The number that the decimal digits `s` denote (most significant first).
pub open spec fn digits_value(s: Seq<u8>) -> nat
    decreases s.len(),
{
    if s.len() == 0 {
        0
    } else {
        digits_value(s.drop_last()) * 10 + (s.last() - ZERO) as nat
    }
}

pub open spec fn all_digits(s: Seq<u8>) -> bool {
    forall|i: int| 0 <= i < s.len() ==> #[trigger] is_digit(s[i])
}

/// What parsing `s` as a `u64` gives: an optional leading `+`, then at
/// least one decimal digit and nothing else, denoting at most `u64::MAX`.
pub open spec fn spec_parse_u64(s: Seq<u8>) -> Option<u64> {
    parse_digits(if s.len() > 0 && s[0] == PLUS { s.subrange(1, s.len() as int) } else { s })
}

/// The value of a non-empty run of decimal digits that fits in a `u64`.
pub open spec fn parse_digits(d: Seq<u8>) -> Option<u64> {
    if d.len() > 0 && all_digits(d) && digits_value(d) <= u64::MAX {
        Some(digits_value(d) as u64)
    } else {
        None
    }
}

/// The shortest decimal representation of `n`.
pub open spec fn decimal(n: nat) -> Seq<u8>
    decreases n,
{
    if n < 10 {
        seq![(ZERO + n) as u8]
    } else {
        decimal(n / 10).push((ZERO + n % 10) as u8)
    }
}

/// `n` in decimal, left-padded with zeros to `SLOT_DIGITS` digits.
pub open spec fn padded_decimal(n: nat) -> Seq<u8> {
    let d = decimal(n);
    if d.len() < SLOT_DIGITS {
        Seq::new((SLOT_DIGITS - d.len()) as nat, |i: int| ZERO) + d
    } else {
        d
    }
}

/// `snapshot-` followed by the zero padded slot.
pub open spec fn snapshot_name(slot: u64) -> Seq<u8> {
    seq![115u8, 110u8, 97u8, 112u8, 115u8, 104u8, 111u8, 116u8, DASH] + padded_decimal(slot as nat)
}

/// Index of the last `/` in `p[0..end]`, or -1.
pub open spec fn last_slash(p: Seq<u8>, end: int) -> int
    decreases end,
{
    if end <= 0 {
        -1
    } else if p[end - 1] == SLASH {
        end - 1
    } else {
        last_slash(p, end - 1)
    }
}

/// The range of the last normal component of the path `p[0..end]`, the
/// way `Path::file_name` finds it: trailing separators and `.` components
/// are skipped; there is none if the path is empty or ends in `..`.
pub open spec fn file_name_range(p: Seq<u8>, end: int) -> Option<(int, int)>
    decreases end, 0int,
{
    if end <= 0 {
        None
    } else if p[end - 1] == SLASH {
        file_name_range(p, end - 1)
    } else {
        let st = last_slash(p, end) + 1;
        if st < end {
            if end - st == 1 && p[st] == DOT {
                file_name_range(p, st)
            } else if end - st == 2 && p[st] == DOT && p[st + 1] == DOT {
                None
            } else {
                Some((st, end))
            }
        } else {
            None
        }
    }
}

/// Index of the first `-` in `s[from..]`, or `s.len()`.
pub open spec fn first_dash(s: Seq<u8>, from: int) -> int
    decreases s.len() - from,
{
    if from >= s.len() {
        s.len() as int
    } else if s[from] == DASH {
        from
    } else {
        first_dash(s, from + 1)
    }
}

/// The second `-` separated piece of `s`, if `s` has a `-`.
pub open spec fn second_piece(s: Seq<u8>) -> Option<Seq<u8>> {
    let i = first_dash(s, 0);
    if i >= s.len() {
        None
    } else {
        Some(s.subrange(i + 1, first_dash(s, i + 1)))
    }
}

/// The slot a snapshot path names: the file name's second `-` separated
/// piece, parsed as a `u64`.
pub open spec fn spec_slot_of_path(p: Seq<u8>) -> Option<u64> {
    match file_name_range(p, p.len() as int) {
        None => None,
        Some((s, e)) => match second_piece(p.subrange(s, e)) {
            None => None,
            Some(piece) => spec_parse_u64(piece),
        },
    }
}

proof fn lemma_last_slash_bounds(p: Seq<u8>, end: int)
    requires
        end <= p.len(),
    ensures
        -1 <= last_slash(p, end) < end || (end <= 0 && last_slash(p, end) == -1),
        last_slash(p, end) >= 0 ==> p[last_slash(p, end)] == SLASH,
        forall|k: int| last_slash(p, end) < k < end ==> p[k] != SLASH,
    decreases end,
{
    if end > 0 && p[end - 1] != SLASH {
        lemma_last_slash_bounds(p, end - 1);
    }
}

proof fn lemma_first_dash_bounds(s: Seq<u8>, from: int)
    requires
        0 <= from,
    ensures
        from <= first_dash(s, from) <= s.len() || (from > s.len() && first_dash(s, from) == s.len()),
        first_dash(s, from) < s.len() ==> s[first_dash(s, from)] == DASH,
        forall|k: int| from <= k < first_dash(s, from) ==> s[k] != DASH,
    decreases s.len() - from,
{
    if from < s.len() && s[from] != DASH {
        lemma_first_dash_bounds(s, from + 1);
    }
}

/// A slot at which a snapshot of the database was taken.
#[derive(Clone, Copy, Debug, PartialEq, Eq, Structural)]
pub struct SnapSlot(pub u64);

pub(crate) fn parse_u64(b: &[u8], start: usize, end: usize) -> (r: Option<u64>)
    requires
        start <= end <= b@.len(),
    ensures
        r == spec_parse_u64(b@.subrange(start as int, end as int)),
{
    let ghost s = b@.subrange(start as int, end as int);
    let mut i = start;
    if start < end && b[start] == PLUS {
        i = start + 1;
    }
    let ghost d = b@.subrange(i as int, end as int);
    proof {
        assert(d =~= (if s.len() > 0 && s[0] == PLUS { s.subrange(1, s.len() as int) } else { s }));
    }
    if i >= end {
        return None;
    }
    let first = i;
    let mut acc: u64 = 0;
    while i < end
        invariant
            first <= i <= end <= b@.len(),
            d == b@.subrange(first as int, end as int),
            spec_parse_u64(b@.subrange(start as int, end as int)) == parse_digits(d),
            all_digits(b@.subrange(first as int, i as int)),
            acc == digits_value(b@.subrange(first as int, i as int)),
        decreases end - i,
    {
        let c = b[i];
        let ghost prefix = b@.subrange(first as int, i as int);
        let ghost next = b@.subrange(first as int, i as int + 1);
        proof {
            assert(next.drop_last() =~= prefix);
            assert(next.last() == c);
        }
        if !(ZERO <= c && c <= 57) {
            proof {
                assert(d[i - first] == c);
                assert(!is_digit(d[i - first]));
            }
            return None;
        }
        let digit = (c - ZERO) as u64;
        match acc.checked_mul(10) {
            Some(m) => match m.checked_add(digit) {
                Some(v) => {
                    acc = v;
                },
                None => {
                    proof {
                        if all_digits(d) {
                            lemma_digits_value_prefix_le(d, i - first + 1);
                            assert(d.subrange(0, i - first + 1) =~= next);
                        }
                    }
                    return None;
                },
            },
            None => {
                proof {
                    if all_digits(d) {
                        lemma_digits_value_prefix_le(d, i - first + 1);
                        assert(d.subrange(0, i - first + 1) =~= next);
                    }
                }
                return None;
            },
        }
        i = i + 1;
        proof {
            assert forall|k: int| 0 <= k < next.len() implies #[trigger] is_digit(next[k]) by {
                if k < prefix.len() {
                    assert(next[k] == prefix[k]);
                }
            }
        }
    }
    proof {
        assert(b@.subrange(first as int, i as int) =~= d);
    }
    Some(acc)
}

/// The value of a prefix of digits never exceeds the value of the whole.
proof fn lemma_digits_value_prefix_le(d: Seq<u8>, n: int)
    requires
        0 <= n <= d.len(),
        all_digits(d),
    ensures
        digits_value(d.subrange(0, n)) <= digits_value(d),
    decreases d.len() - n,
{
    if n < d.len() {
        lemma_digits_value_prefix_le(d, n + 1);
        let a = d.subrange(0, n + 1);
        assert(a.drop_last() =~= d.subrange(0, n));
        assert(a.last() == d[n]);
        assert(is_digit(d[n]));
    } else {
        assert(d.subrange(0, n) =~= d);
    }
}

impl SnapSlot {
    /// Parses a snapshot path to extract its slot: the file name's second
    /// `-` separated piece must be a `u64`.
    pub fn try_from_path(path: &str) -> (r: Option<SnapSlot>)
        ensures
            r == (match spec_slot_of_path(path.spec_bytes()) {
                Some(v) => Some(SnapSlot(v)),
                None => None::<SnapSlot>,
            }),
    {
        let b = path.as_bytes();
        match Self::try_from_bytes(b) {
            Some(v) => Some(SnapSlot(v)),
            None => None,
        }
    }

    /// The slot a snapshot path, given by its bytes, names.
    pub fn try_from_bytes(b: &[u8]) -> (r: Option<u64>)
        ensures
            r == spec_slot_of_path(b@),
    {
        let (st, en) = match file_name_range_of(b) {
            Some(range) => range,
            None => return None,
        };
        let ghost name = b@.subrange(st as int, en as int);
        let i = first_dash_of(b, st, st, en);
        proof {
            assert(i - st == first_dash(name, 0));
        }
        if i >= en {
            return None;
        }
        let j = first_dash_of(b, st, i + 1, en);
        proof {
            assert(j - st == first_dash(name, i - st + 1));
            assert(name.subrange(i - st + 1, j - st) =~= b@.subrange(i + 1, j as int));
        }
        parse_u64(b, i + 1, j)
    }
}

/// Index (in `b`) of the first `-` in `b[from..end]`, or `end`; relative
/// to `st`, this is `first_dash` of the name `b[st..end]`.
fn first_dash_of(b: &[u8], st: usize, from: usize, end: usize) -> (r: usize)
    requires
        st <= from <= end + 1,
        st <= end <= b@.len(),
    ensures
        from <= end ==> from <= r <= end,
        r - st == first_dash(b@.subrange(st as int, end as int), from - st),
{
    let mut i = from;
    while i < end && b[i] != DASH
        invariant
            from <= i,
            from <= end ==> i <= end,
            end <= b@.len(),
            forall|k: int| from <= k < i ==> b@[k] != DASH,
        decreases end - i,
    {
        i = i + 1;
    }
    proof {
        lemma_first_dash_scan(b@, st as int, end as int, from as int, i as int);
    }
    if i > end { end } else { i }
}

proof fn lemma_first_dash_scan(b: Seq<u8>, st: int, end: int, from: int, i: int)
    requires
        0 <= st <= from,
        st <= end <= b.len(),
        from <= i,
        from <= end ==> i <= end,
        forall|k: int| from <= k < i ==> b[k] != DASH,
        i < end ==> b[i] == DASH,
    ensures
        (if i > end { end } else { i }) - st == first_dash(b.subrange(st, end), from - st),
    decreases i - from,
{
    let name = b.subrange(st, end);
    if from >= end {
    } else if b[from] == DASH {
        assert(name[from - st] == DASH);
    } else {
        assert(name[from - st] != DASH);
        lemma_first_dash_scan(b, st, end, from + 1, i);
    }
}

/// The range of the file name of the path `b`, as `file_name_range` gives it.
fn file_name_range_of(b: &[u8]) -> (r: Option<(usize, usize)>)
    ensures
        r matches Some((s, e)) ==> s < e <= b@.len() && file_name_range(b@, b@.len() as int) == Some(
            (s as int, e as int),
        ),
        r is None ==> file_name_range(b@, b@.len() as int) is None,
{
    let mut end = b.len();
    while end > 0
        invariant
            end <= b@.len(),
            file_name_range(b@, b@.len() as int) == file_name_range(b@, end as int),
        decreases end,
    {
        if b[end - 1] == SLASH {
            end = end - 1;
        } else {
            let mut k = end;
            while k > 0 && b[k - 1] != SLASH
                invariant
                    k <= end <= b@.len(),
                    last_slash(b@, end as int) == last_slash(b@, k as int),
                decreases k,
            {
                k = k - 1;
            }
            proof {
                lemma_last_slash_bounds(b@, k as int);
            }
            let st = k;
            if st < end {
                if end - st == 1 && b[st] == DOT {
                    end = st;
                } else if end - st == 2 && b[st] == DOT && b[st + 1] == DOT {
                    return None;
                } else {
                    return Some((st, end));
                }
            } else {
                return None;
            }
        }
    }
    None
}

/// `parent` joined with the relative `name`, the way `Path::join` does it:
/// a separator is added unless `parent` is empty or already ends in one.
pub open spec fn join_path(parent: Seq<u8>, name: Seq<u8>) -> Seq<u8> {
    if parent.len() > 0 && parent.last() != SLASH {
        parent.push(SLASH) + name
    } else {
        parent + name
    }
}

pub(crate) proof fn lemma_decimal(n: nat)
    ensures
        decimal(n).len() >= 1,
        all_digits(decimal(n)),
        digits_value(decimal(n)) == n,
    decreases n,
{
    if n >= 10 {
        lemma_decimal(n / 10);
        let d = decimal(n);
        assert(d.drop_last() =~= decimal(n / 10));
        assert(d.last() == (ZERO + n % 10) as u8);
        assert((d.last() - ZERO) as nat == n % 10);
        assert(n == (n / 10) * 10 + n % 10);
        assert(digits_value(d) == digits_value(d.drop_last()) * 10 + (d.last() - ZERO) as nat);
        assert(digits_value(d.drop_last()) == n / 10);
        assert forall|i: int| 0 <= i < d.len() implies #[trigger] is_digit(d[i]) by {
            if i < d.len() - 1 {
                assert(d[i] == decimal(n / 10)[i]);
            }
        }
    } else {
        let d = decimal(n);
        assert(d.drop_last() =~= Seq::<u8>::empty());
        assert(d.last() == (ZERO + n) as u8);
        assert(digits_value(d) == digits_value(d.drop_last()) * 10 + (d.last() - ZERO) as nat);
        assert(digits_value(d.drop_last()) == 0);
    }
}

proof fn lemma_zeros_value(k: nat)
    ensures
        digits_value(Seq::new(k, |i: int| ZERO)) == 0,
        all_digits(Seq::new(k, |i: int| ZERO)),
    decreases k,
{
    if k > 0 {
        lemma_zeros_value((k - 1) as nat);
        assert(Seq::new(k, |i: int| ZERO).drop_last() =~= Seq::new((k - 1) as nat, |i: int| ZERO));
    }
}

proof fn lemma_leading_zeros(k: nat, d: Seq<u8>)
    ensures
        digits_value(Seq::new(k, |i: int| ZERO) + d) == digits_value(d),
    decreases d.len(),
{
    let z = Seq::new(k, |i: int| ZERO);
    if d.len() == 0 {
        assert(z + d =~= z);
        lemma_zeros_value(k);
    } else {
        lemma_leading_zeros(k, d.drop_last());
        assert((z + d).drop_last() =~= z + d.drop_last());
        assert((z + d).last() == d.last());
    }
}

pub(crate) proof fn lemma_padded_decimal(n: nat)
    ensures
        padded_decimal(n).len() >= SLOT_DIGITS,
        all_digits(padded_decimal(n)),
        digits_value(padded_decimal(n)) == n,
{
    lemma_decimal(n);
    let d = decimal(n);
    if d.len() < SLOT_DIGITS {
        let k = (SLOT_DIGITS - d.len()) as nat;
        let z = Seq::new(k, |i: int| ZERO);
        lemma_leading_zeros(k, d);
        lemma_zeros_value(k);
        let p = z + d;
        assert forall|i: int| 0 <= i < p.len() implies #[trigger] is_digit(p[i]) by {
            if i < k {
                assert(is_digit(z[i]));
            } else {
                assert(p[i] == d[i - k]);
            }
        }
    }
}

/// Parsing the path of a snapshot, wherever it is placed, gives back its slot.
pub proof fn lemma_snapshot_path_roundtrip(parent: Seq<u8>, slot: u64)
    ensures
        spec_slot_of_path(join_path(parent, snapshot_name(slot))) == Some(slot),
{
    let name = snapshot_name(slot);
    let digits = padded_decimal(slot as nat);
    lemma_padded_decimal(slot as nat);
    let p = join_path(parent, name);
    let start = p.len() - name.len();
    assert(name.len() >= 21);
    assert forall|k: int| 0 <= k < name.len() implies name[k] != SLASH by {
        if k >= 9 {
            assert(name[k] == digits[k - 9]);
            assert(is_digit(digits[k - 9]));
        }
    }
    assert forall|k: int| start <= k < p.len() implies p[k] == name[k - start] by {}
    // the last component of the path is the name
    assert forall|e: int| start <= e <= p.len() implies last_slash(p, e) == last_slash(p, start) by {
        lemma_last_slash_descends(p, start, e);
    }
    assert(last_slash(p, start) == start - 1) by {
        if start > 0 {
            assert(p[start - 1] == SLASH);
        }
    }
    assert(p[p.len() - 1] != SLASH);
    assert(file_name_range(p, p.len() as int) == Some((start, p.len() as int)));
    assert(p.subrange(start, p.len() as int) =~= name);
    // its second dash separated piece is the padded slot
    assert(first_dash(name, 0) == 8) by {
        reveal_with_fuel(first_dash, 10);
    }
    assert forall|k: int| 9 <= k < name.len() implies name[k] != DASH by {
        assert(name[k] == digits[k - 9]);
        assert(is_digit(digits[k - 9]));
    }
    lemma_first_dash_none(name, 9);
    assert(name.subrange(9, name.len() as int) =~= digits);
    assert(digits[0] != PLUS) by {
        assert(is_digit(digits[0]));
    }
}

proof fn lemma_last_slash_descends(p: Seq<u8>, start: int, e: int)
    requires
        0 <= start <= e <= p.len(),
        forall|k: int| start <= k < p.len() ==> p[k] != SLASH,
    ensures
        last_slash(p, e) == last_slash(p, start),
    decreases e - start,
{
    if e > start {
        lemma_last_slash_descends(p, start, e - 1);
    }
}

proof fn lemma_first_dash_none(s: Seq<u8>, from: int)
    requires
        0 <= from <= s.len(),
        forall|k: int| from <= k < s.len() ==> s[k] != DASH,
    ensures
        first_dash(s, from) == s.len(),
    decreases s.len() - from,
{
    if from < s.len() {
        lemma_first_dash_none(s, from + 1);
    }
}

fn push_decimal(out: &mut Vec<u8>, n: u64)
    ensures
        final(out)@ == old(out)@ + decimal(n as nat),
    decreases n,
{
    if n >= 10 {
        push_decimal(out, n / 10);
    }
    let ghost pre = out@;
    out.push(ZERO + (n % 10) as u8);
    proof {
        if n >= 10 {
            assert(out@ =~= old(out)@ + decimal(n as nat));
        } else {
            assert(out@ =~= old(out)@ + decimal(n as nat));
        }
    }
}

impl SnapSlot {
    /// The file name of the snapshot: `snapshot-` followed by the slot,
    /// zero padded to `SLOT_DIGITS` digits so that names order like slots.
    pub fn file_name(&self) -> (r: Vec<u8>)
        ensures
            r@ == snapshot_name(self.0),
    {
        let mut digits: Vec<u8> = Vec::new();
        push_decimal(&mut digits, self.0);
        proof {
            assert(digits@ =~= decimal(self.0 as nat));
        }
        let mut out: Vec<u8> = vec![115u8, 110u8, 97u8, 112u8, 115u8, 104u8, 111u8, 116u8, DASH];
        let mut pad = digits.len();
        while pad < SLOT_DIGITS
            invariant
                digits@ == decimal(self.0 as nat),
                digits@.len() <= pad <= SLOT_DIGITS || (pad == digits@.len() && pad >= SLOT_DIGITS),
                out@ == seq![115u8, 110u8, 97u8, 112u8, 115u8, 104u8, 111u8, 116u8, DASH] + Seq::new(
                    (pad - digits@.len()) as nat,
                    |i: int| ZERO,
                ),
            decreases SLOT_DIGITS - pad,
        {
            out.push(ZERO);
            pad = pad + 1;
            proof {
                assert(out@ =~= seq![115u8, 110u8, 97u8, 112u8, 115u8, 104u8, 111u8, 116u8, DASH] + Seq::new(
                    (pad - digits@.len()) as nat,
                    |i: int| ZERO,
                ));
            }
        }
        let mut i: usize = 0;
        let ghost base = out@;
        while i < digits.len()
            invariant
                0 <= i <= digits@.len(),
                out@ == base + digits@.subrange(0, i as int),
            decreases digits@.len() - i,
        {
            out.push(digits[i]);
            i = i + 1;
            proof {
                assert(out@ =~= base + digits@.subrange(0, i as int));
            }
        }
        proof {
            assert(digits@.subrange(0, digits@.len() as int) =~= digits@);
            let d = decimal(self.0 as nat);
            if d.len() < SLOT_DIGITS {
                assert(out@ =~= snapshot_name(self.0));
            } else {
                assert(Seq::new((pad - digits@.len()) as nat, |i: int| ZERO) =~= Seq::<u8>::empty());
                assert(out@ =~= snapshot_name(self.0));
            }
        }
        out
    }

    /// The path of the snapshot inside the directory `parent`.
    pub fn as_path(&self, parent: &str) -> (r: Vec<u8>)
        ensures
            r@ == join_path(parent.spec_bytes(), snapshot_name(self.0)),
    {
        let pb = parent.as_bytes();
        let mut out: Vec<u8> = Vec::new();
        let mut i: usize = 0;
        while i < pb.len()
            invariant
                0 <= i <= pb@.len(),
                out@ == pb@.subrange(0, i as int),
            decreases pb@.len() - i,
        {
            out.push(pb[i]);
            i = i + 1;
            proof {
                assert(out@ =~= pb@.subrange(0, i as int));
            }
        }
        proof {
            assert(out@ =~= pb@);
        }
        if pb.len() > 0 && pb[pb.len() - 1] != SLASH {
            out.push(SLASH);
        }
        let name = self.file_name();
        let ghost pre = out@;
        let mut k: usize = 0;
        while k < name.len()
            invariant
                0 <= k <= name@.len(),
                out@ == pre + name@.subrange(0, k as int),
            decreases name@.len() - k,
        {
            out.push(name[k]);
            k = k + 1;
            proof {
                assert(out@ =~= pre + name@.subrange(0, k as int));
            }
        }
        proof {
            assert(name@.subrange(0, name@.len() as int) =~= name@);
            assert(out@ =~= join_path(pb@, snapshot_name(self.0)));
        }
        out
    }
}

} // verus!
