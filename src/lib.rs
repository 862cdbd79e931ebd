// Cleans a local Maven repository of the directories that hold a marker of a
// failed download.
//
// `paths` finds the repository directory from a cache root, `scan` tells the
// marker files apart, `cleanup` is the run itself as a state machine that the
// caller feeds with what the file system and the operator report, and `runs`
// states what whole runs do.

pub mod cleanup;
pub mod paths;
pub mod runs;
pub mod scan;
