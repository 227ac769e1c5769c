pub mod reversi_service;
