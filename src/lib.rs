pub mod balance;
pub mod codec;
pub mod hexcode;
pub mod transfer;
pub mod vault;
