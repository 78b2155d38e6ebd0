//! What the derive macros generate, decided from plain values: the name of the
//! generated type, its derive statement, and for each field or variant what the
//! generated code does with it.  The code that writes the tokens follows these plans.

pub mod fields;
pub mod pick;
pub mod record;
pub mod union;
