//! Verified drivers for the MC1322x family of 802.15.4 system-on-chips.
pub mod adc;
pub mod aes;
pub mod board;
pub mod ccm;
pub mod critical;
pub mod delay;
pub mod embassy;
pub mod flash_algorithm;
pub mod gpio;
pub mod i2c;
pub mod layout;
pub mod nvm;
pub mod port;
pub mod power;
pub mod pwm;
pub mod radio;
pub mod radio_hal;
pub mod rng;
pub mod rtc;
pub mod sleep;
pub mod spi;
pub mod ssl;
pub mod time_driver;
pub mod uart;
pub mod util;
