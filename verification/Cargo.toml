[package]
name = "sudoku_constraints"
version = "0.1.0"
edition = "2021"
publish = false

[dependencies]
ark-bls12-381 = "*"
ark-ff = "*"
ark-r1cs-std = "*"
ark-relations = "*"
