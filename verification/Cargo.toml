[package]
name = "rat_widget_core"
version = "0.1.0"
edition = "2021"
publish = false

[dependencies]
ratatui = "=0.30.2"
crossterm = "=0.29.0"
rat-event = "=2.1.0"
rat-focus = "=2.1.1"
rat-scrolled = "=2.0.2"
rat-reloc = "=2.0.2"
ropey = "=1.6.1"
log = "=0.4.35"
unicode-segmentation = "=1.13.3"
