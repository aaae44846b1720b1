[package]
name = "pixel_dim_display"
version = "0.1.0"
edition = "2021"
publish = false

[dependencies]
defmt = "=1.2.0"
defmt-rtt = "=1.3.1"
embassy-executor = { version = "=0.9.1", features = ["arch-std", "executor-thread"] }
embassy-futures = "=0.1.2"
embassy-nrf = { version = "=0.11.0", features = ["nrf52833", "gpiote", "time-driver-rtc1"] }
embassy-sync = { version = "=0.8.0", features = ["std"] }
embassy-time = "=0.5.1"
hd44780-controller = { version = "=0.1.0-alpha.2", features = ["async", "fmt", "pcf8574-device-async"] }
libm = "=0.2.16"
panic-halt = "=1.0.0"
panic-probe = "=1.0.0"
