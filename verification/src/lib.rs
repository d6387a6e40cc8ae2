//! A data model for DICOM data elements: typed values, attributes, ordered
//! datasets and the lifecycle of a file-backed document.

pub mod dataset;
pub mod decimal;
pub mod document;
pub mod error;
pub mod hexdumper;
pub mod kind;
pub mod number;
pub mod registry;
pub mod tag;
pub mod temporal;
pub mod text;

pub use crate::dataset::{CursorPosition, Dataset, DatasetIter};
pub use crate::document::{DicomDocument, DocumentMode, DocumentState, WriteStep, WritingMode};
pub use crate::error::{DicomError, DicomResult, OptionExt, SyntaxErrorKind};
pub use crate::hexdumper::{dicom_hexdump, hex_and_ascii};
pub use crate::kind::{VrClass, VrKind};
pub use crate::registry::{AttributeMetadata, TagRegistry};
pub use crate::tag::{Attribute, DicomTag, DicomValue, VisualRepresentation};
pub use crate::temporal::{DicomDate, DicomDateTime, DicomTime};
