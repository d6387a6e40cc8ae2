use std::rc::Rc;

use dicom_model::error::{DicomError, SyntaxErrorKind};
use dicom_model::kind::VrKind;
use dicom_model::registry::{AttributeMetadata, TagRegistry};
use dicom_model::tag::{Attribute, DicomTag, DicomValue, VisualRepresentation};

fn metadata(name: &str, vr_kind: VrKind, multiplicity: &str, is_deprecated: bool) -> AttributeMetadata {
    AttributeMetadata {
        name: name.to_string(),
        vr_kind,
        multiplicity: multiplicity.to_string(),
        is_deprecated,
    }
}

fn registry() -> TagRegistry {
    let mut r = TagRegistry::new();
    r.register((0x0010, 0x0010), metadata("Patient's Name", VrKind::PN, "1", false));
    r.register((0x0010, 0x0030), metadata("Patient's Birth Date", VrKind::DA, "1", false));
    r.register((0x0010, 0x1000), metadata("Other Patient IDs", VrKind::LO, "1-n", true));
    r.register((0x0028, 0x0010), metadata("Rows", VrKind::US, "1", false));
    r.register((0x0008, 0x1140), metadata("Referenced Image Sequence", VrKind::SQ, "1", false));
    r.register((0x0010, 0x0000), metadata("Patient", VrKind::UN, "", false));
    r
}

#[test]
fn the_registry_finds_what_was_registered() {
    let r = registry();
    assert_eq!(r.lookup((0x0010, 0x0010)), Some(&metadata("Patient's Name", VrKind::PN, "1", false)));
    assert_eq!(r.lookup((0x0010, 0x0011)), None);
    assert_eq!(r.lookup((0x0011, 0x0010)), None);
    assert_eq!(r.lookup((0x1000, 0x0010)), None);
    assert!(r.contains((0x0028, 0x0010)));
    assert!(!r.contains((0x0028, 0x0011)));
    assert!(!TagRegistry::new().contains((0x0010, 0x0010)));
}

#[test]
fn registering_again_replaces_the_entry() {
    let mut r = registry();
    r.register((0x0010, 0x0010), metadata("Name", VrKind::LO, "2", true));
    assert_eq!(r.lookup((0x0010, 0x0010)), Some(&metadata("Name", VrKind::LO, "2", true)));
    assert_eq!(r.lookup((0x0028, 0x0010)), Some(&metadata("Rows", VrKind::US, "1", false)));
}

#[test]
fn an_attribute_carries_the_registry_metadata() {
    let a = Attribute::new(&registry(), (0x0010, 0x0010), false).unwrap();
    assert_eq!(a.tag(), (0x0010, 0x0010));
    assert_eq!(a.group(), 0x0010);
    assert_eq!(a.element(), Some(0x0010));
    assert_eq!(a.name(), "Patient's Name");
    assert_eq!(a.multiplicity(), "1");
    assert!(!a.is_deprecated());
    assert_eq!(a.vr_kind(), VrKind::PN);
    assert_eq!(a.vr(), &VisualRepresentation::PN(String::new()));
}

#[test]
fn a_group_attribute_has_no_element() {
    let a = Attribute::new(&registry(), (0x0010, 0x0000), false).unwrap();
    assert_eq!(a.tag(), (0x0010, 0x0000));
    assert_eq!(a.group(), 0x0010);
    assert_eq!(a.element(), None);
}

#[test]
fn an_unknown_tag_is_refused() {
    assert_eq!(
        Attribute::new(&registry(), (0x0010, 0x00FF), false),
        Err(DicomError::InvalidTag("(0010,00FF)".to_string()))
    );
    assert_eq!(
        Attribute::new(&registry(), (0xABCD, 0xEF09), true),
        Err(DicomError::InvalidTag("(ABCD,EF09)".to_string()))
    );
    assert_eq!(
        Attribute::from_string(&registry(), (0x7FE0, 0x0010), "x", true),
        Err(DicomError::InvalidTag("(7FE0,0010)".to_string()))
    );
}

#[test]
fn a_deprecated_tag_needs_the_legacy_flag() {
    assert_eq!(
        Attribute::new(&registry(), (0x0010, 0x1000), false),
        Err(DicomError::ObsoleteElement("Other Patient IDs".to_string()))
    );
    let a = Attribute::new(&registry(), (0x0010, 0x1000), true).unwrap();
    assert!(a.is_deprecated());
    assert_eq!(a.vr(), &VisualRepresentation::LO(String::new()));
    assert_eq!(
        Attribute::from_string(&registry(), (0x0010, 0x1000), "A1", false),
        Err(DicomError::ObsoleteElement("Other Patient IDs".to_string()))
    );
    let a = Attribute::from_string(&registry(), (0x0010, 0x1000), "A1", true).unwrap();
    assert_eq!(a.vr(), &VisualRepresentation::LO("A1".to_string()));
}

#[test]
fn a_deprecated_attribute_changes_only_with_the_legacy_flag() {
    let mut a = Attribute::from_string(&registry(), (0x0010, 0x1000), "A1", true).unwrap();
    assert_eq!(
        a.set_value(DicomValue::String("B2"), false),
        Err(DicomError::ObsoleteElement("Other Patient IDs".to_string()))
    );
    assert_eq!(a.vr(), &VisualRepresentation::LO("A1".to_string()));
    assert_eq!(a.set_value(DicomValue::String("B2"), true), Ok(()));
    assert_eq!(a.vr(), &VisualRepresentation::LO("B2".to_string()));
}

#[test]
fn an_attribute_reads_its_value_by_its_kind() {
    let a = Attribute::from_string(&registry(), (0x0028, 0x0010), "512", false).unwrap();
    assert_eq!(a.vr(), &VisualRepresentation::US(512));
    assert_eq!(
        Attribute::from_string(&registry(), (0x0028, 0x0010), "many", false),
        Err(DicomError::InvalidValue("many".to_string()))
    );
    assert_eq!(
        Attribute::from_string(&registry(), (0x0010, 0x0030), "19800230", false),
        Err(DicomError::SyntaxError(SyntaxErrorKind::InvalidDate("19800230".to_string())))
    );
}

#[test]
fn patient_name_attribute_renders_its_value() {
    let a = Attribute::from_string(&registry(), (0x0010, 0x0010), "Doe^John", false).unwrap();
    assert_eq!(a.vr().to_string(), "Doe^John");
    assert_eq!(a.to_string(), "(0010,0010) PN Patient's Name: Doe^John\n");
}

#[test]
fn set_value_keeps_tag_and_kind() {
    let mut a = Attribute::new(&registry(), (0x0028, 0x0010), false).unwrap();
    assert_eq!(a.set_value(DicomValue::String("256"), false), Ok(()));
    assert_eq!(a.vr(), &VisualRepresentation::US(256));
    assert_eq!(
        a.set_value(DicomValue::String("-1"), false),
        Err(DicomError::InvalidValue("-1".to_string()))
    );
    assert_eq!(a.vr(), &VisualRepresentation::US(256));
    assert_eq!(a.tag(), (0x0028, 0x0010));
    assert_eq!(a.name(), "Rows");
    assert_eq!(a.vr_kind(), VrKind::US);
}

#[test]
fn a_sequence_takes_items_and_renders_them_in_order() {
    let r = registry();
    let name = Rc::new(Attribute::from_string(&r, (0x0010, 0x0010), "Doe^John", false).unwrap());
    let rows = Rc::new(Attribute::from_string(&r, (0x0028, 0x0010), "512", false).unwrap());
    let mut seq = Attribute::new(&r, (0x0008, 0x1140), false).unwrap();
    assert_eq!(
        seq.set_value(DicomValue::ObjectVec(vec![Rc::clone(&name), Rc::clone(&rows)]), false),
        Ok(())
    );
    assert_eq!(seq.vr(), &VisualRepresentation::SQ(vec![Rc::clone(&name), Rc::clone(&rows)]));
    assert_eq!(
        seq.to_string(),
        "(0008,1140) SQ Referenced Image Sequence: (0010,0010) PN Patient's Name: Doe^John\n(0028,0010) US Rows: 512\n\n"
    );
    assert_eq!(
        seq.set_value(DicomValue::Object(Rc::clone(&name)), false),
        Err(DicomError::InvalidVR("SQ".to_string()))
    );
    assert_eq!(seq.vr(), &VisualRepresentation::SQ(vec![Rc::clone(&name), Rc::clone(&rows)]));
    assert_eq!(seq.set_value(DicomValue::String("text"), false), Ok(()));
    assert_eq!(seq.vr(), &VisualRepresentation::SQ(vec![]));
}

#[test]
fn a_text_kind_refuses_attributes() {
    let r = registry();
    let rows = Rc::new(Attribute::from_string(&r, (0x0028, 0x0010), "512", false).unwrap());
    let mut name = Attribute::from_string(&r, (0x0010, 0x0010), "Doe^John", false).unwrap();
    assert_eq!(
        name.set_value(DicomValue::Object(Rc::clone(&rows)), false),
        Err(DicomError::InvalidVR("PN".to_string()))
    );
    assert_eq!(
        name.set_value(DicomValue::ObjectVec(vec![rows]), false),
        Err(DicomError::InvalidVR("PN".to_string()))
    );
    assert_eq!(name.vr(), &VisualRepresentation::PN("Doe^John".to_string()));
}

#[test]
fn a_value_hands_out_its_attributes() {
    let r = registry();
    let name = Rc::new(Attribute::from_string(&r, (0x0010, 0x0010), "Doe^John", false).unwrap());
    let rows = Rc::new(Attribute::from_string(&r, (0x0028, 0x0010), "512", false).unwrap());
    let one = DicomValue::Object(Rc::clone(&name));
    let handle = one.object().unwrap();
    assert!(Rc::ptr_eq(&handle, &name));
    assert_eq!(one.object_vec(), Vec::<Rc<Attribute>>::new());
    assert_eq!(one.to_string(), "(0010,0010) PN Patient's Name: Doe^John\n");
    let many = DicomValue::ObjectVec(vec![Rc::clone(&name), Rc::clone(&rows)]);
    assert_eq!(many.object(), None);
    let handles = many.object_vec();
    assert_eq!(handles.len(), 2);
    assert!(Rc::ptr_eq(&handles[0], &name));
    assert!(Rc::ptr_eq(&handles[1], &rows));
    assert_eq!(
        many.to_string(),
        "(0010,0010) PN Patient's Name: Doe^John\n(0028,0010) US Rows: 512\n"
    );
    let text = DicomValue::String("plain");
    assert_eq!(text.object(), None);
    assert_eq!(text.object_vec(), Vec::<Rc<Attribute>>::new());
    assert_eq!(text.to_string(), "plain");
}
