[package]
name = "userservice"
version = "0.1.0"
edition = "2021"
publish = false

[dependencies]
chrono = "0.4"
config = { version = "0.10", default-features = false, features = ["toml"] }
diesel = { version = "1.4", features = ["postgres", "r2d2", "chrono"] }
diesel_migrations = "1.4"
dotenv = "0.15"
fern = { version = "0.6", features = ["colored"] }
log = "0.4"
prost = "0.7"
prost-types = "0.7"
r2d2 = "0.8"
serde = { version = "1", features = ["derive"] }
tokio = { version = "1", features = ["macros", "rt-multi-thread"] }
toml = "0.5"
tonic = "0.4"
