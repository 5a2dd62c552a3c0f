pub mod flight;
