[package]
name = "pipe_console"
version = "0.1.0"
edition = "2021"
publish = false

[dependencies]
heapless = "=0.8.0"
embassy-sync = "=0.8.0"
embassy-executor = { version = "=0.9.1", features = ["arch-std", "executor-thread"] }
embassy-stm32 = { version = "=0.6.0", features = ["stm32f103rc", "time-driver-any", "exti", "memory-x"] }
embassy-time = "=0.5.1"
defmt = "=1.2.0"
defmt-rtt = "=1.3.1"
panic-probe = { version = "=1.0.0", features = ["print-defmt"] }
ssd1306 = { version = "=0.10.0", features = ["async"] }
embedded-io-async = "=0.7.0"
embedded-hal = "=1.0.0"
mipidsi = "=0.10.0"
stm32-metapac = { version = "=21.0.0", features = ["stm32f103rc"] }
