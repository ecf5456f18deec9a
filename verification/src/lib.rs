pub mod time;
pub mod temporal;
pub mod job;
pub mod job_store;
pub mod text;
pub mod twinoid;
pub mod dinoparc;
pub mod dinoparc_client;
pub mod popotamo;
pub mod popotamo_scraper;
pub mod popotamo_page;
pub mod pg_interval;
pub mod job_runner;
pub mod pg_store;
