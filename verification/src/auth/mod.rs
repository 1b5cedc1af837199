//! Authentication: token claims, password hashing and the role checks that
//! guard the commands.
pub mod jwt;
pub mod password;
pub mod middleware;
