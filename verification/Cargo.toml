[package]
name = "css_position"
version = "0.1.0"
edition = "2021"
publish = false

[dependencies]
cssparser = "*"
selectors = "*"
servo_arc = "*"
smallvec = "*"
stylo_traits = "*"
