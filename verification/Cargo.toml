[package]
name = "todo_list"
version = "0.1.0"
edition = "2021"
publish = false

[dependencies]
gloo = "*"
serde = { version = "1", features = ["derive"] }
strum = { version = "*", features = ["derive"] }
strum_macros = "*"
web-sys = { version = "*", features = ["HtmlInputElement"] }
yew = { version = "*", features = ["csr"] }
