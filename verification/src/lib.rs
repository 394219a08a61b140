pub mod annotate;
pub mod db;
pub mod declarations;
pub mod declmap;
pub mod ignore;
pub mod json;
pub mod json_report;
pub mod lsp;
pub mod matching;
pub mod model;
pub mod order;
pub mod paths;
pub mod plan;
pub mod preview;
pub mod purl;
pub mod reach;
pub mod remediate;
pub mod render;
pub mod report;
pub mod resolve;
pub mod sarif;
pub mod sbom;
pub mod scan;
pub mod versions;
pub mod text;
pub mod time;
pub mod tiers;
pub mod vex;
pub mod vex_ingest;
