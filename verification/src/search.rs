pub mod score;
pub mod eval;
pub mod see;
pub mod hashtable;
pub mod ttentry;
pub mod stats;
pub mod settings;
pub mod info;
pub mod negamax;
pub mod qsearch;
pub mod random;
pub mod greedy;
pub mod root;
pub mod material_law;
pub mod quiet_law;
pub mod minimax_law;
