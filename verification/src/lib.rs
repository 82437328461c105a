//! Game rules of a map server: quest journals, class experience, Grand
//! Company ranks and seals, guildleves, retainers and their bazaar,
//! gathering, combat, status effects, hotbars, achievements, linkshell
//! chat and the subpacket wire format.

pub mod achievement;
pub mod bazaar;
pub mod bitstream;
pub mod combat;
pub mod content;
pub mod crafting;
pub mod gathering;
pub mod grand_company;
pub mod hotbar;
pub mod inventory;
pub mod leve;
pub mod leveling;
pub mod quest;
pub mod retainer;
pub mod social;
pub mod status;
pub mod wire;
