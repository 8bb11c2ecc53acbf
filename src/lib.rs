pub mod area;
pub mod background;
pub mod game;
pub mod noise;
pub mod quantize;
pub mod renderer;
pub mod widgets;
