[package]
name = "lintdoc"
version = "0.1.0"
edition = "2021"
publish = false

[dependencies]
anyhow = "1"
biome_analyze = "=0.4.0"
biome_console = "=0.4.0"
biome_css_parser = "=0.4.0"
biome_css_syntax = "=0.4.0"
biome_diagnostics = "=0.4.0"
biome_js_analyze = "=0.4.0"
biome_js_parser = "=0.4.0"
biome_js_syntax = "=0.4.0"
biome_json_analyze = "=0.4.0"
biome_json_parser = "=0.4.0"
biome_json_syntax = "=0.4.0"
biome_string_case = "=0.5.8"
pulldown-cmark = { version = "=0.10.3", default-features = false, features = ["html"] }
