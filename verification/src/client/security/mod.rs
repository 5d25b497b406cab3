pub mod vencrypt;
