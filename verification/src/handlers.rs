//! The decisions behind the web handlers: form validation, state
//! transitions and the journal entries each request posts. The handlers
//! themselves (database access, sessions, rendering) live with the server.
pub mod reimbursement;
pub mod payments;
pub mod exports_pdf;
pub mod reconciliation;
pub mod dashboard;
pub mod closing;
pub mod documents;
pub mod accounts;
pub mod recurring_journals;
pub mod import;
pub mod account;
pub mod admin;
pub mod amortization;
pub mod auth_oidc;
pub mod invoices;
pub mod contacts;
pub mod entities;
pub mod dimensions;
pub mod ledgers;
pub mod notifications;
pub mod invoice_share;
pub mod rec_sessions;
pub mod dashboard_layout;
pub mod fixed_assets;
pub mod inventory;
pub mod estimates;
pub mod fx;
pub mod budgets;
pub mod automations;
pub mod onboarding;
pub mod aging;
pub mod document_ocr;
pub mod backups;
pub mod approval_policies;
pub mod bank_feeds;
pub mod einvoice;
