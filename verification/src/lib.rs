use vstd::prelude::*;

pub mod browser;
pub mod calendar;
pub mod collectors;
pub mod companion;
pub mod context;
pub mod dispatch;
pub mod duration;
pub mod events;
pub mod notifications;
pub mod pet;
pub mod routing;
pub mod settings;
pub mod sprites;
pub mod status;
pub mod text;

verus! {

} // verus!
