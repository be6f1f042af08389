pub mod joliet;
pub mod rock_ridge;
