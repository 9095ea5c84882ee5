pub mod strings;
pub mod mc_text;
pub mod mc_support;
pub mod mc_type;
pub mod registry;
pub mod mc_calseg;
pub mod mc_address;
pub mod sorting;
pub mod mc_event;
pub mod mc_instance;
pub mod xcp;
pub mod daq_event;
pub mod histogram;
pub mod daemon_config;
pub mod process_config;
pub mod cal;
pub mod idl_generator;
pub mod counter;
pub mod reg;
pub mod mc_typedef;
pub mod a2l_writer;
pub mod a2l_file;
pub mod reg_registry;
pub mod reg_a2l_writer;
pub mod register;
pub mod a2l_load;
