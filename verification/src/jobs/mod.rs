pub mod timers;
