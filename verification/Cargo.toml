[package]
name = "subspace-data-retrieval"
version = "0.1.0"
edition = "2021"
publish = false

[dependencies]
anyhow = "*"
blake3 = "*"
clap = { version = "*", features = ["derive"] }
fdlimit = "*"
futures = "*"
mimalloc = "*"
reed-solomon-erasure = "*"
thiserror = "*"
tokio = { version = "*", features = ["macros", "rt-multi-thread", "signal", "time"] }
