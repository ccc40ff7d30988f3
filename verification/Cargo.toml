[package]
name = "igniter_js"
version = "0.1.0"
edition = "2021"
publish = false

[dependencies]
swc_atoms = "=10.0.0"
swc_common = "=26.0.0"
swc_ecma_ast = "=29.0.2"
swc_ecma_parser = "=46.1.2"
swc_ecma_codegen = "=32.0.5"
swc_ecma_visit = "=29.0.0"
swc_css_ast = "=26.0.0"
swc_css_parser = "=26.0.0"
swc_css_codegen = "=26.0.0"
swc_css_visit = "=26.0.0"
biome_formatter = "=0.5.7"
biome_js_formatter = "=0.5.7"
biome_js_parser = "=0.5.7"
biome_js_syntax = "=0.5.7"
biome_css_formatter = "=0.5.7"
biome_css_parser = "=0.5.7"
biome_css_syntax = "=0.5.7"
biome_rowan = "=0.5.7"
biome_console = "=0.5.7"
biome_css_factory = "=0.5.7"
biome_diagnostics = "=0.5.7"
biome_parser = "=0.5.7"
biome_string_case = "=0.5.7"
biome_text_edit = "=0.5.7"
biome_text_size = "=0.5.7"
biome_unicode_table = "=0.5.7"
rustler = "=0.39.0"
