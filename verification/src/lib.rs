//! Maat SDK: the grammar of delegations, constraints, scopes and action
//! descriptors, plus the verification logic of agents and resources.

pub mod anchor;
pub mod constraints;
pub mod delegation;
pub mod descriptor;
pub mod error;
pub mod executor_key;
pub mod gateway;
pub mod json;
pub mod protocol;
pub mod replay;
pub mod scope;
pub mod text;
pub mod time;
pub mod validator;
