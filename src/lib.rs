//! Scan-and-react logic of a keyboard controller: per-key debouncing, LED
//! animations, the bitmap display's sprite selection and the per-tick
//! decisions that tie them to the key layout and the USB reports.

pub mod debounce;
pub mod display;
pub mod led_state;
pub mod report;
pub mod tick;
