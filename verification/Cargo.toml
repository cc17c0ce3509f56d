[package]
name = "trigger_dictionary"
version = "0.1.0"
edition = "2021"
rust-version = "1.95"
publish = false

[dependencies]
serde = { version = "=1.0.229", features = ["derive"] }
serde_json = { version = "=1.0.154", features = ["preserve_order"] }
teloxide = { version = "=0.17.0", default-features = false, features = ["macros", "ctrlc_handler"] }
tokio = { version = "=1.54.1", features = ["rt-multi-thread", "macros", "time"] }
reqwest = { version = "=0.12.28", default-features = false, features = ["json"] }
# teloxide depends on takecell; its 0.1.2 asks for a newer compiler than rust-version, so it is held at 0.1.1.
takecell = "=0.1.1"
dotenv = "=0.15.0"
log = "=0.4.34"
pretty_env_logger = "=0.5.0"
rand = "=0.8.8"
