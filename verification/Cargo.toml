[package]
name = "discord_music_bot"
version = "0.1.0"
edition = "2021"
publish = false

[dependencies]
audiotags = "0.5"
log = "0.4"
pretty_env_logger = "0.5"
rand = "0.9"
serenity = "0.12"
songbird = { version = "0.5", features = ["builtin-queue"] }
tokio = { version = "1", features = ["macros", "rt-multi-thread", "sync"] }
walkdir = "2"
