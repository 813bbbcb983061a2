pub mod basemodel;
pub mod bufferlog;
pub mod bufferread;
pub mod channel;
pub mod connection;
pub mod modellib;
pub mod probe;
pub mod rsis;
pub mod scheduler;
pub mod epoch;
pub mod external;
