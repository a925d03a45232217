//! Screen layout, bounded metric formatting and reusable widgets.

pub mod fmt;
pub mod layout;
pub mod widget;
