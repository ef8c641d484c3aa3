pub mod libmount;
pub mod usb;
