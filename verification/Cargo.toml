[package]
name = "todo_api"
version = "0.1.0"
edition = "2021"
publish = false

[dependencies]
iron = "*"
router = "*"
postgres = "*"
r2d2 = "*"
r2d2_postgres = "*"
