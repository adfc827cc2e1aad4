//! The logic of a small orchestrator: a container stack from compose files, the
//! tasks around it, and the provisioning of identities and gateway routes.

pub mod apisix;
pub mod configuration;
pub mod db_handler;
pub mod decode;
pub mod docker;
pub mod exec;
pub mod http_client;
pub mod http_handler;
pub mod init_kanidm_apisix;
pub mod json;
pub mod kafka_handler;
pub mod kanidm;
pub mod logger;
pub mod numbers;
pub mod orchestrator;
pub mod secret_map;
pub mod text;
pub mod validation;
pub mod web_server;
