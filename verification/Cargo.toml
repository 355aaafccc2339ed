[package]
name = "seashell"
version = "0.1.0"
edition = "2021"
publish = false

[dependencies]
indexmap = "=2.14.2"
bytemuck = "=1.25.2"
solana-rent = { version = "=3.1.0", features = ["serde", "sysvar"] }
solana-slot-hashes = { version = "=3.2.0", features = ["serde", "sysvar"] }
solana-hash = { version = "=3.1.0", features = ["serde"] }
solana-instruction = "=3.5.1"
solana-account = { version = "=3.4.0", features = ["bincode"] }
solana-pubkey = "=3.0.0"
solana-transaction-context = "=3.1.14"
flate2 = "=1.1.10"
serde = { version = "=1.0.229", features = ["derive"] }
serde_json = "=1.0.154"
serde_with = { version = "=3.24.0", features = ["hex"] }
solana-program-runtime = "=3.1.14"
agave-feature-set = "=3.1.14"
agave-precompiles = "=3.1.14"
agave-syscalls = "=3.1.14"
solana-builtins = "=3.1.14"
solana-compute-budget = "=3.1.14"
solana-svm-callback = "=3.1.14"
solana-svm-log-collector = "=3.1.14"
solana-svm-timings = "=3.1.14"
solana-precompile-error = "3"

[dev-dependencies]
bincode = "=1.3.3"
solana-clock = { version = "=3.2.1", features = ["serde", "sysvar"] }
solana-epoch-rewards = { version = "=3.2.0", features = ["serde", "sysvar"] }
solana-epoch-schedule = { version = "=3.4.0", features = ["serde", "sysvar"] }
solana-last-restart-slot = { version = "=3.2.0", features = ["serde", "sysvar"] }
solana-stake-interface = { version = "=2.0.2", features = ["serde", "sysvar"] }
