use vstd::prelude::*;
use crate::handler::{CreateUser, FetchUserByIdQuery};

verus! {

/// A parsed command line.
#[derive(Debug)]
pub struct Cli {
    pub command: Commands,
}

/// What the command line asks for.
#[derive(Debug)]
pub enum Commands {
    /// Create a user, with a department where one is named.
    Create { name: String, department: Option<String> },
    /// Fetch a user by identity.
    Fetch { id: i64 },
}

/// The handler request that a command stands for.
#[derive(Debug)]
pub enum Request {
    Create(CreateUser),
    Fetch(FetchUserByIdQuery),
}

impl Commands {
    /// The request that this command stands for, carrying its arguments as
    /// they are.
    pub fn into_request(self) -> (r: Request)
        ensures
            self matches Commands::Create { name, department } ==> r matches Request::Create(c)
                && c.user_name == name && c.department_name == department,
            self matches Commands::Fetch { id } ==> r matches Request::Fetch(q) && q.user_id == id,
    {
        match self {
            Commands::Create { name, department } => Request::Create(
                CreateUser { user_name: name, department_name: department },
            ),
            Commands::Fetch { id } => Request::Fetch(FetchUserByIdQuery { user_id: id }),
        }
    }
}

} // verus!
