use sluiceway::identity::{PipelineId, PipelineIdError};
use sluiceway::pipeline::run_id;

#[test]
fn validates_length() {
    assert_eq!(PipelineId::new(""), Err(PipelineIdError::Empty));
    assert!(PipelineId::new("x".repeat(PipelineId::MAX_LEN)).is_ok());
    assert_eq!(
        PipelineId::new("x".repeat(PipelineId::MAX_LEN + 1)),
        Err(PipelineIdError::TooLong)
    );
}

#[test]
fn accepts_portable_characters_and_rejects_everything_else() {
    let id = PipelineId::new("ethereum/mainnet:blocks.v2_archive-1").unwrap();
    assert_eq!(id.as_str(), "ethereum/mainnet:blocks.v2_archive-1");
    assert_eq!(
        PipelineId::new("orders to warehouse"),
        Err(PipelineIdError::InvalidCharacter {
            index: 6,
            character: ' ',
        })
    );
    assert_eq!(
        PipelineId::new("pipeline-☃"),
        Err(PipelineIdError::InvalidCharacter {
            index: 9,
            character: '☃',
        })
    );
}

#[test]
fn length_is_counted_in_bytes() {
    let snowmen = "☃".repeat(86);
    assert_eq!(PipelineId::new(snowmen), Err(PipelineIdError::TooLong));
    assert_eq!(
        PipelineId::from_text("☃".repeat(85)),
        Err(PipelineIdError::InvalidCharacter {
            index: 0,
            character: '☃',
        })
    );
}

#[test]
fn identity_faults_are_worded() {
    assert_eq!(
        PipelineIdError::Empty.message(),
        "pipeline id must not be empty"
    );
    assert_eq!(
        PipelineIdError::TooLong.message(),
        "pipeline id must not exceed 255 bytes"
    );
    assert_eq!(
        PipelineIdError::InvalidCharacter {
            index: 10,
            character: '\'',
        }
        .message(),
        "pipeline id contains invalid character '\\'' at byte 10"
    );
}

#[test]
fn pipelines_without_identity_are_unnamed() {
    assert_eq!(run_id(&None).as_str(), "unnamed");
    let id = PipelineId::new("orders").unwrap();
    assert_eq!(run_id(&Some(id.clone())), id);
    assert_eq!(format!("{id:?}"), "PipelineId(\"orders\")");
}
