//! Verified state machines of a set of record-keeping ledger contracts.
pub mod table;
pub mod loyalty_rewards;
pub mod subscription_registry;
pub mod expense_splitter;
pub mod meeting_minutes;
pub mod equipment_checkout;
pub mod license_renewal;
pub mod feedback_board;
pub mod internship_logbook;
pub mod pledge_campaign;
pub mod carpool_board;
pub mod checklist_review;
pub mod warranty_registry;
pub mod lost_and_found;
pub mod bounty_board;
pub mod shift_scheduling;
pub mod visitor_pass_management;
pub mod event_rsvp;
pub mod referral_rewards;
