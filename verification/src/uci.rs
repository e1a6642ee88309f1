pub mod mv;
pub mod moves;
pub mod go;
pub mod setoption;
pub mod position;
pub mod session;
