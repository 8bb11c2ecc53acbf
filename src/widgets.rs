pub mod cave;
pub mod noise_background;
pub mod spaceship;
