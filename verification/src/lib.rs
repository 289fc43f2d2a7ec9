pub mod buffer_reader;
pub mod buffer_writter;
pub mod ringbuffer;
pub mod bits;
pub mod control_code;
pub mod request_code;
pub mod roborio_status_code;
pub mod alliance_station;
pub mod error;
pub mod joystick;
pub mod robot_voltage;
pub mod team_number;
pub mod robot_to_driver;
pub mod time_data;
pub mod driver_to_robot;
pub mod robot_to_driverstation;
pub mod math_util;
pub mod etui;
pub mod log;
pub mod pov;
pub mod fms;
pub mod super_small_vec;
pub mod roborio_logic;
pub mod tcp;
pub mod message_console;
pub mod udp_response;
pub mod ds_logic;
pub mod robot_discovery;
pub mod gamepad;
pub mod boxed_area;
