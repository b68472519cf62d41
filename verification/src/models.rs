pub mod collection;
pub mod copy_history;
pub mod patch;
pub mod playbook;
pub mod prompt;
pub mod settings;
pub mod tag;
