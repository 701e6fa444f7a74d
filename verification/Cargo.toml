[package]
name = "clipboard-history-manager"
version = "0.1.0"
edition = "2021"
publish = false

[dependencies]
sublime_fuzzy = "=0.7.0"
arboard = "3"
egui = "0.31"
egui-wgpu = "0.31"
egui-winit = "0.31"
wgpu = "24"
winit = "0.30"
global-hotkey = "0.6"
tray-icon = "0.20"
pollster = "0.4"
objc2 = "0.6"
objc2-app-kit = "0.3"
