[package]
name = "saf_ledger"
version = "0.1.0"
edition = "2021"
publish = false

[dependencies]
chrono = { version = "0.4", default-features = false, features = ["clock", "std", "serde"] }
uuid = { version = "1", default-features = false, features = ["std", "v4"] }
serde = { version = "1", features = ["derive"] }
serde_json = "1"
rusqlite = { version = "*", features = ["bundled", "chrono"] }
zip = { version = "0.6", default-features = false, features = ["deflate"] }
fs2 = "0.4"
fd-lock = "*"
xlsxwriter = "0.6"
printpdf = { version = "0.7", default-features = false }
