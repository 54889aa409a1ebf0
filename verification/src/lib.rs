//! Verified core of the Earth Computing cell model: port masks, deterministic
//! UUIDs with the AIT state machine, names, traphs and routing entries,
//! packetization, messages, blueprints and manifests, and the cell agent's
//! decisions on port events, messages and requests.
pub mod config;
pub mod utility;
pub mod uuid_ec;
pub mod text;
pub mod name;
pub mod name_type;
pub mod assoc;
pub mod traph;
pub mod traph_element;
pub mod gvm_equation;
pub mod routing_table_entry;
pub mod port_tree;
pub mod tree;
pub mod routing_table;
pub mod message;
pub mod packet;
pub mod blueprint;
pub mod uptree_spec;
pub mod app_message;
pub mod tcp_message;
pub mod ec_message;
pub mod cell;
pub mod simulator;
#[allow(non_snake_case)]
pub mod external_echoDemo;
pub mod cmodel;
pub mod link;
pub mod vm;
pub mod service;
pub mod tenant;
pub mod dal;
pub mod datacenter;
pub mod noc;
pub mod port;
pub mod app_message_formats;
pub mod routingtable;
pub mod packet_engine;
pub mod nalcell;
pub mod ecargs;
pub mod cellagent;
pub mod ec_message_formats;
