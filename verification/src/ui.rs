pub mod diagnostics;
