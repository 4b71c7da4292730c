[package]
name = "profile-typenetwork"
version = "0.1.0"
edition = "2021"
publish = false

[dependencies]
fontspector-checkapi = "=1.2.0"
fontations = "=0.3.0"
pluginator = "=1.0.1"
serde_json = "=1.0.154"
