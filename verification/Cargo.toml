[package]
name = "imp"
version = "0.1.0"
edition = "2021"
publish = false

[dependencies]
base64 = "=0.22.1"
hex = "=0.4.3"
md-5 = "=0.11.0"
sha1 = "=0.11.0"
sha2 = "=0.11.1"
digest = "=0.11.3"
blake3 = { version = "=1.8.7", features = ["pure"] }
unicode-normalization = "=0.1.26"
encoding_rs = "=0.8.44"
dirs = "=7.0.0"
globset = "=0.4.21"
tokio = { version = "=1.54.1", features = ["fs", "io-util", "rt", "macros", "sync", "time"] }
chrono = "=0.4.45"
serde_json = "=1.0.154"
thiserror = "=2.0.21"
inquire = "=0.9.4"
futures = "0.3"
tokio-util = "*"
tracing = "0.1"
rquickjs = { version = "*", features = ["full-async"] }
oxc_allocator = "=0.143.0"
oxc_ast = "=0.143.0"
oxc_codegen = "=0.143.0"
oxc_parser = "=0.143.0"
oxc_semantic = "=0.143.0"
oxc_span = "=0.143.0"
oxc_transformer = "=0.143.0"
