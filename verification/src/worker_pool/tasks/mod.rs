pub mod box_message;
