pub mod clock;
pub mod desktop;
pub mod json;
pub mod launcher;
pub mod macroeng;
pub mod number;
pub mod order;
pub mod ratio;
pub mod roblox;
pub mod text;
