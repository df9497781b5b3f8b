# The kcp crate means its sums of sequence numbers, fragment numbers and clock readings to wrap.
# Give this file to Cargo:
#
#     cargo test --config extras/cargo/config.toml
#
# A workspace that holds this package takes the same tables into its own Cargo.toml.

[profile.dev.package.kcp]
overflow-checks = false

[profile.test.package.kcp]
overflow-checks = false

[profile.release.package.kcp]
overflow-checks = false

[profile.bench.package.kcp]
overflow-checks = false
