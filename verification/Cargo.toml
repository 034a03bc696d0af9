[package]
name = "hal_core"
version = "0.1.0"
edition = "2021"
publish = false

[dependencies]
axalloc = "=0.2.2-preview.1"
axconfig = "=0.2.2-preview.2"
axdriver_base = "=0.1.3"
axdriver_virtio = { version = "=0.1.3", features = ["block", "net", "gpu"] }
axerrno = "=0.1.2"
axio = "=0.2.1"
axsync = "=0.3.0-preview.3"
cfg-if = "=1.0.5"
linkme = "=0.3.37"
memory_addr = "=0.4.1"
page_table_entry = "=0.5.7"
