pub mod classifier;
pub mod dependency_checker;
pub mod validator;
