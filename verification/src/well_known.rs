use vstd::prelude::*;

verus! {

/// The address of the system program, `11111111111111111111111111111111`.
pub const SYSTEM_PROGRAM_ID: [u8; 32] = [0, 0, 0, 0, 0, 0, 0, 0, 0, 0, 0, 0, 0, 0, 0, 0, 0, 0, 0, 0, 0, 0, 0, 0, 0, 0, 0, 0, 0, 0, 0, 0];

/// The address of the compute budget program, `ComputeBudget111111111111111111111111111111`.
pub const COMPUTE_BUDGET_ID: [u8; 32] = [3, 6, 70, 111, 229, 33, 23, 50, 255, 236, 173, 186, 114, 195, 155, 231, 188, 140, 229, 187, 197, 247, 18, 107, 44, 67, 155, 58, 64, 0, 0, 0];

/// The address of the native loader, `NativeLoader1111111111111111111111111111111`.
pub const NATIVE_LOADER_ID: [u8; 32] = [5, 135, 132, 191, 20, 139, 164, 40, 47, 176, 18, 87, 72, 136, 169, 241, 83, 160, 125, 173, 247, 101, 192, 69, 92, 154, 151, 3, 128, 0, 0, 0];

/// The address of the BPF loader, `BPFLoader2111111111111111111111111111111111`.
pub const BPF_LOADER_ID: [u8; 32] = [2, 168, 246, 145, 78, 136, 161, 110, 57, 90, 225, 40, 148, 143, 250, 105, 86, 147, 55, 104, 24, 221, 71, 67, 82, 33, 243, 198, 0, 0, 0, 0];

/// The address of the deprecated BPF loader, `BPFLoader1111111111111111111111111111111111`.
pub const BPF_LOADER_DEPRECATED_ID: [u8; 32] = [2, 168, 246, 145, 78, 136, 161, 107, 189, 35, 149, 133, 95, 100, 4, 217, 180, 244, 86, 183, 130, 27, 176, 20, 87, 73, 66, 140, 0, 0, 0, 0];

/// The address of the upgradeable BPF loader, `BPFLoaderUpgradeab1e11111111111111111111111`.
pub const BPF_LOADER_UPGRADEABLE_ID: [u8; 32] = [2, 168, 246, 145, 78, 136, 161, 176, 226, 16, 21, 62, 247, 99, 174, 43, 0, 194, 185, 61, 22, 193, 36, 210, 192, 83, 122, 16, 4, 128, 0, 0];

/// The address of the v4 loader, `LoaderV411111111111111111111111111111111111`.
pub const LOADER_V4_ID: [u8; 32] = [5, 18, 180, 17, 81, 81, 227, 122, 173, 10, 139, 197, 211, 136, 46, 123, 127, 218, 76, 243, 210, 192, 40, 200, 207, 131, 54, 24, 0, 0, 0, 0];

/// The address of the incinerator, `1nc1nerator11111111111111111111111111111111`.
pub const INCINERATOR_ID: [u8; 32] = [0, 51, 144, 114, 141, 52, 17, 96, 121, 189, 201, 17, 191, 255, 0, 219, 212, 77, 46, 205, 204, 247, 156, 166, 225, 0, 56, 225, 0, 0, 0, 0];

/// The address of the secp256k1 program, `KeccakSecp256k11111111111111111111111111111`.
pub const SECP256K1_PROGRAM_ID: [u8; 32] = [4, 198, 252, 32, 240, 80, 204, 240, 85, 132, 215, 33, 28, 159, 140, 245, 158, 193, 71, 133, 187, 22, 106, 30, 40, 48, 232, 18, 32, 0, 0, 0];

/// The address of the ed25519 program, `Ed25519SigVerify111111111111111111111111111`.
pub const ED25519_PROGRAM_ID: [u8; 32] = [3, 125, 70, 214, 124, 147, 251, 190, 18, 249, 66, 143, 131, 141, 64, 255, 5, 112, 116, 73, 39, 244, 138, 100, 252, 202, 112, 68, 128, 0, 0, 0];

/// The address of the address lookup table program, `AddressLookupTab1e1111111111111111111111111`.
pub const ADDRESS_LOOKUP_TABLE_PROGRAM_ID: [u8; 32] = [2, 119, 166, 175, 151, 51, 155, 122, 200, 141, 24, 146, 201, 4, 70, 245, 0, 2, 48, 146, 102, 246, 46, 83, 193, 24, 36, 73, 130, 0, 0, 0];

/// The address of the config program, `Config1111111111111111111111111111111111111`.
pub const CONFIG_PROGRAM_ID: [u8; 32] = [3, 6, 74, 163, 0, 47, 116, 220, 200, 110, 67, 49, 15, 12, 5, 42, 248, 197, 218, 39, 246, 16, 64, 25, 163, 35, 239, 160, 0, 0, 0, 0];

/// The address of the stake program, `Stake11111111111111111111111111111111111111`.
pub const STAKE_PROGRAM_ID: [u8; 32] = [6, 161, 216, 23, 145, 55, 84, 42, 152, 52, 55, 189, 254, 42, 122, 178, 85, 127, 83, 92, 138, 120, 114, 43, 104, 164, 157, 192, 0, 0, 0, 0];

/// The address of the stake config account, `StakeConfig11111111111111111111111111111111`.
pub const STAKE_CONFIG_ID: [u8; 32] = [6, 161, 216, 23, 165, 2, 5, 11, 104, 7, 145, 230, 206, 109, 184, 142, 30, 91, 113, 80, 246, 31, 198, 121, 10, 78, 180, 209, 0, 0, 0, 0];

/// The address of the vote program, `Vote111111111111111111111111111111111111111`.
pub const VOTE_PROGRAM_ID: [u8; 32] = [7, 97, 72, 29, 53, 116, 116, 187, 124, 77, 118, 36, 235, 211, 189, 179, 216, 53, 94, 115, 209, 16, 67, 252, 13, 163, 83, 128, 0, 0, 0, 0];

/// The address of the feature program, `Feature111111111111111111111111111111111111`.
pub const FEATURE_ID: [u8; 32] = [3, 192, 160, 205, 203, 6, 210, 218, 239, 174, 130, 209, 111, 238, 122, 207, 97, 236, 115, 123, 35, 72, 27, 33, 148, 106, 118, 112, 0, 0, 0, 0];

/// The address of the sysvar owner, `Sysvar1111111111111111111111111111111111111`.
pub const SYSVAR_ID: [u8; 32] = [6, 167, 213, 23, 24, 117, 247, 41, 199, 61, 147, 64, 143, 33, 97, 32, 6, 126, 216, 140, 118, 224, 140, 40, 127, 193, 148, 96, 0, 0, 0, 0];

/// The address of the clock sysvar, `SysvarC1ock11111111111111111111111111111111`.
pub const SYSVAR_CLOCK_ID: [u8; 32] = [6, 167, 213, 23, 24, 199, 116, 201, 40, 86, 99, 152, 105, 29, 94, 182, 139, 94, 184, 163, 155, 75, 109, 92, 115, 85, 91, 33, 0, 0, 0, 0];

/// The address of the epoch rewards sysvar, `SysvarEpochRewards1111111111111111111111111`.
pub const SYSVAR_EPOCH_REWARDS_ID: [u8; 32] = [6, 167, 213, 23, 24, 220, 63, 238, 2, 165, 88, 191, 131, 206, 102, 225, 68, 66, 42, 28, 52, 149, 11, 39, 193, 134, 155, 90, 156, 0, 0, 0];

/// The address of the epoch schedule sysvar, `SysvarEpochSchedu1e111111111111111111111111`.
pub const SYSVAR_EPOCH_SCHEDULE_ID: [u8; 32] = [6, 167, 213, 23, 24, 220, 63, 238, 2, 211, 228, 127, 1, 0, 248, 176, 84, 247, 148, 46, 96, 89, 30, 63, 80, 135, 25, 168, 5, 0, 0, 0];

/// The address of the fees sysvar, `SysvarFees111111111111111111111111111111111`.
pub const SYSVAR_FEES_ID: [u8; 32] = [6, 167, 213, 23, 24, 226, 90, 141, 131, 80, 60, 37, 26, 122, 240, 113, 38, 253, 114, 0, 223, 111, 196, 237, 82, 106, 156, 144, 0, 0, 0, 0];

/// The address of the instructions sysvar, `Sysvar1nstructions1111111111111111111111111`.
pub const SYSVAR_INSTRUCTIONS_ID: [u8; 32] = [6, 167, 213, 23, 24, 123, 209, 102, 53, 218, 212, 4, 85, 253, 194, 192, 193, 36, 198, 143, 33, 86, 117, 165, 219, 186, 203, 95, 8, 0, 0, 0];

/// The address of the last restart slot sysvar, `SysvarLastRestartS1ot1111111111111111111111`.
pub const SYSVAR_LAST_RESTART_SLOT_ID: [u8; 32] = [6, 167, 213, 23, 25, 6, 221, 225, 205, 63, 148, 125, 202, 180, 200, 244, 244, 245, 27, 173, 15, 152, 19, 184, 0, 210, 137, 71, 31, 192, 0, 0];

/// The address of the recent blockhashes sysvar, `SysvarRecentB1ockHashes11111111111111111111`.
pub const SYSVAR_RECENT_BLOCKHASHES_ID: [u8; 32] = [6, 167, 213, 23, 25, 44, 86, 142, 224, 138, 132, 95, 115, 210, 151, 136, 207, 3, 92, 49, 69, 178, 26, 179, 68, 216, 6, 46, 169, 64, 0, 0];

/// The address of the rent sysvar, `SysvarRent111111111111111111111111111111111`.
pub const SYSVAR_RENT_ID: [u8; 32] = [6, 167, 213, 23, 25, 44, 92, 81, 33, 140, 201, 76, 61, 74, 241, 127, 88, 218, 238, 8, 155, 161, 253, 68, 227, 219, 217, 138, 0, 0, 0, 0];

/// The address of the rewards sysvar, `SysvarRewards111111111111111111111111111111`.
pub const SYSVAR_REWARDS_ID: [u8; 32] = [6, 167, 213, 23, 25, 44, 97, 55, 206, 224, 146, 217, 182, 146, 62, 225, 204, 214, 25, 3, 250, 130, 184, 161, 97, 145, 87, 141, 128, 0, 0, 0];

/// The address of the slot hashes sysvar, `SysvarS1otHashes111111111111111111111111111`.
pub const SYSVAR_SLOT_HASHES_ID: [u8; 32] = [6, 167, 213, 23, 25, 47, 10, 175, 198, 242, 101, 227, 251, 119, 204, 122, 218, 130, 197, 41, 208, 190, 59, 19, 110, 45, 0, 85, 32, 0, 0, 0];

/// The address of the slot history sysvar, `SysvarS1otHistory11111111111111111111111111`.
pub const SYSVAR_SLOT_HISTORY_ID: [u8; 32] = [6, 167, 213, 23, 25, 47, 10, 175, 200, 117, 226, 225, 132, 87, 124, 80, 105, 207, 200, 70, 73, 227, 235, 146, 120, 47, 149, 141, 72, 0, 0, 0];

/// The address of the stake history sysvar, `SysvarStakeHistory1111111111111111111111111`.
pub const SYSVAR_STAKE_HISTORY_ID: [u8; 32] = [6, 167, 213, 23, 25, 53, 132, 208, 254, 237, 155, 179, 67, 29, 19, 32, 107, 229, 68, 40, 27, 87, 184, 86, 108, 197, 55, 95, 244, 0, 0, 0];

/// The address of the native SOL mint, `So11111111111111111111111111111111111111112`.
pub const NATIVE_SOL_ID: [u8; 32] = [6, 155, 136, 87, 254, 171, 129, 132, 251, 104, 127, 99, 70, 24, 192, 53, 218, 196, 57, 220, 26, 235, 59, 85, 152, 160, 240, 0, 0, 0, 0, 1];

/// The address of the magic program, `Magic11111111111111111111111111111111111111`.
pub const MAGIC_PROGRAM_ID: [u8; 32] = [5, 69, 180, 36, 176, 218, 112, 149, 236, 185, 214, 222, 195, 119, 215, 40, 145, 182, 231, 142, 146, 234, 18, 214, 223, 187, 58, 64, 0, 0, 0, 0];

/// The address of the magic context account, `MagicContext1111111111111111111111111111111`.
pub const MAGIC_CONTEXT_PUBKEY: [u8; 32] = [5, 69, 180, 36, 196, 165, 40, 191, 95, 180, 3, 47, 68, 82, 130, 142, 187, 56, 171, 193, 210, 220, 151, 247, 63, 139, 148, 84, 128, 0, 0, 0];

/// The accounts that are never cloned, whatever the validator: programs
/// built into the runtime, sysvars, the native mint and the magic program.
pub const BUILTIN_BLACKLIST: [[u8; 32]; 32] = [
    SYSTEM_PROGRAM_ID,
    COMPUTE_BUDGET_ID,
    NATIVE_LOADER_ID,
    BPF_LOADER_ID,
    BPF_LOADER_DEPRECATED_ID,
    BPF_LOADER_UPGRADEABLE_ID,
    LOADER_V4_ID,
    INCINERATOR_ID,
    SECP256K1_PROGRAM_ID,
    ED25519_PROGRAM_ID,
    ADDRESS_LOOKUP_TABLE_PROGRAM_ID,
    CONFIG_PROGRAM_ID,
    STAKE_PROGRAM_ID,
    STAKE_CONFIG_ID,
    VOTE_PROGRAM_ID,
    FEATURE_ID,
    SYSVAR_ID,
    SYSVAR_CLOCK_ID,
    SYSVAR_EPOCH_REWARDS_ID,
    SYSVAR_EPOCH_SCHEDULE_ID,
    SYSVAR_FEES_ID,
    SYSVAR_INSTRUCTIONS_ID,
    SYSVAR_LAST_RESTART_SLOT_ID,
    SYSVAR_RECENT_BLOCKHASHES_ID,
    SYSVAR_RENT_ID,
    SYSVAR_REWARDS_ID,
    SYSVAR_SLOT_HASHES_ID,
    SYSVAR_SLOT_HISTORY_ID,
    SYSVAR_STAKE_HISTORY_ID,
    NATIVE_SOL_ID,
    MAGIC_PROGRAM_ID,
    MAGIC_CONTEXT_PUBKEY,
];

} // verus!
