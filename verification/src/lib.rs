//! The telephony engine of a cellular modem's control plane: the decoder for
//! short message PDUs, the tracker of voice calls, the reading of bus signals
//! into events, and the checks that the device applies to what it is handed.

pub mod calls;
pub mod cell_location;
pub mod cell_lock;
pub mod clock;
pub mod decimal;
pub mod hex;
pub mod ota;
pub mod pdu;
pub mod pdu_encode;
pub mod signals;
pub mod sms;
pub mod text;
pub mod usb;
pub mod utf16;
