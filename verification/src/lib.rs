//! Value types of a Terra client: bounded unsigned amounts, 18-digit fixed-point
//! decimals, coins and coin ledgers, and bech32 addresses and public keys.
//! Every operation carries a contract over a mathematical model of its type.

pub mod address;
pub mod codec;
pub mod coin;
pub mod coins;
pub mod dec;
pub mod error;
pub mod msgs;
pub mod order;
pub mod text;
pub mod uint128;

pub use address::{AccAddress, AccPubKey, ValAddress, ValConsAddress, ValConsPubKey, ValPubKey};
pub use codec::{
    Payload, Role, ACC_ADDRESS_HRP, ACC_PUBKEY_HRP, ADDR_LEN, VALCONS_ADDRESS_HRP, VALCONS_PUBKEY_HRP,
    VAL_ADDRESS_HRP, VAL_PUBKEY_HRP,
};
pub use coin::{Coin, CoinMacroAmount, CoinMacroExprInput, CoinView, NO_DENOM};
pub use coins::Coins;
pub use dec::{Dec, IntoDec, Sign, DEC_ONE, DEC_PRECISION};
pub use error::Error;
pub use msgs::{MsgSend, ToAmino, ToProto};
pub use uint128::Uint128;
