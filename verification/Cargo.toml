[package]
name = "micro_bpf"
version = "0.1.0"
edition = "2021"
publish = false

[dependencies]
goblin = { version = "*", default-features = false, features = ["std", "elf32", "elf64", "endian_fd"] }
clap = { version = "4", features = ["derive"] }
tokio = { version = "1", features = ["macros", "rt-multi-thread"] }
serde = { version = "1", features = ["derive"] }
serde_json = "1"
env_logger = "*"
log = "0.4"
dotenv = "0.15"
enum-iterator = "*"
num = "0.4"
num-derive = "0.4"
num-traits = "0.2"
rbpf = "*"
syn = { version = "2", features = ["full"] }
