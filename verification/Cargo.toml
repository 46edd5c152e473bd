[package]
name = "cps_station"
version = "0.1.0"
edition = "2021"
publish = false

[dependencies]
heapless = "=0.8.0"
micromath = "=2.1.0"
defmt = "=1.2.0"
defmt-rtt = "=1.3.1"
panic-probe = "=1.0.0"
cortex-m = { version = "=0.7.10", features = ["critical-section-single-core"] }
cortex-m-rt = "=0.7.7"
display-interface-spi = "=0.4.1"
ssd1309 = "=0.4.0"
embedded-alloc = "0.6"
embedded-graphics = "=0.8.2"
embedded-io-async = "=0.7.0"
embassy-executor = { version = "=0.10.0", features = ["platform-spin", "executor-thread"] }
embassy-futures = "=0.1.2"
embassy-sync = "=0.8.0"
embassy-time = "=0.5.1"
embassy-stm32 = { version = "=0.6.0", features = ["stm32f405rg", "time-driver-any", "exti"] }
