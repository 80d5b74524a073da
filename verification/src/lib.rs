//! Verified core logic of a home automation backend: device protocols, MQTT
//! topic matching and subscriptions, the conditions language, date
//! classification, schedule sequencing and execution, car charging decisions,
//! entity state, and the answers of the web service.

pub mod amber;
pub mod api;
pub mod calendar;
pub mod classifier;
pub mod conditions;
pub mod dates;
pub mod entities;
pub mod executor;
pub mod hdmi;
pub mod http;
pub mod lexer;
pub mod lifx;
pub mod lights;
pub mod messages;
pub mod metrics;
pub mod mqtt;
pub mod order;
pub mod phone;
pub mod parser;
pub mod robotica;
pub mod sequencer;
pub mod tasks;
pub mod tesla;
pub mod text;
pub mod topics;
pub mod websocket;
pub mod zones;
