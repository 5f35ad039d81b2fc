[package]
name = "jamdr"
version = "0.1.0"
edition = "2021"
publish = false

[dependencies]
clap = { version = "=4.6.7", features = ["derive"] }
comrak = "=0.56.0"
dirs = "=7.0.0"
freetype-rs = "*"
handlebars = "=6.4.4"
printpdf = "=0.12.8"
pulldown-cmark = "=0.9.6"
serde_json = "=1.0.151"
