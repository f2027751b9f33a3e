pub mod jwt_token;
