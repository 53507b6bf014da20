//! Calendar appointments and tasks: the data model, the repeat periods, the
//! editing window and the week viewer of a small calendar application,
//! with their behaviour stated and proved.

pub mod calendar;
pub mod text;
pub mod repeat;
pub mod counter;
pub mod appointment;
pub mod order;
pub mod viewer;
pub mod window;
pub mod app_state;
