pub mod activities;
pub mod cash_transactions;
pub mod group_members;
pub mod groups;
pub mod transactions;
pub mod upi_payments;
pub mod users;
