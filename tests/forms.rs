use laps::maps::UploadError;
use laps::multipart::{form_boundary, FormError, MultipartForm};
use laps::types::MapUploadRequest;

#[test]
fn boundaries() {
    assert_eq!(form_boundary(None), Err(FormError::MissingContentType));
    assert_eq!(
        form_boundary(Some("application/json")),
        Err(FormError::NotMultipart { content_type: "application/json".to_string() })
    );
    assert_eq!(form_boundary(Some("multipart/form-data")), Err(FormError::MissingBoundary));
    assert_eq!(
        form_boundary(Some("multipart/form-data; boundary=abc123")).unwrap(),
        "abc123"
    );
    assert_eq!(
        form_boundary(Some("multipart/form-data; boundary=x; boundary=y")).unwrap(),
        "x; boundary=y"
    );
    assert_eq!(form_boundary(Some("multipart/form-data; boundary=")).unwrap(), "");
}

#[test]
fn form_fields() {
    let mut form = MultipartForm::new();
    assert_eq!(form.add_text("name".to_string(), b"laps-test".to_vec()), Ok(()));
    assert_eq!(form.add_text("version".to_string(), b"0.1.0".to_vec()), Ok(()));
    assert_eq!(
        form.add_file("module".to_string(), "application/x-tar".to_string(), vec![1, 2, 3]),
        Ok(())
    );
    assert_eq!(
        form.add_text("module".to_string(), b"again".to_vec()),
        Err(FormError::DuplicateFields { field: "module".to_string() })
    );
    assert_eq!(
        form.add_text("bad".to_string(), vec![0xff, 0xfe]),
        Err(FormError::InvalidUtf8 { field: "bad".to_string() })
    );

    assert_eq!(form.get_text("name"), Ok("laps-test".to_string()));
    assert_eq!(form.get_text("name"), Err(FormError::MissingText { field: "name".to_string() }));
    assert_eq!(
        form.get_file("image/png", "module"),
        Err(FormError::BadMime {
            field: "module".to_string(),
            got: "application/x-tar".to_string(),
            expected: "image/png".to_string()
        })
    );
    assert_eq!(form.get_file("application/x-tar", "module"), Ok(vec![1, 2, 3]));
    assert_eq!(
        form.get_file("application/x-tar", "module"),
        Err(FormError::MissingFileField {
            field: "module".to_string(),
            mime: "application/x-tar".to_string()
        })
    );
    assert_eq!(form.get_text("version"), Ok("0.1.0".to_string()));
}

#[test]
fn map_upload_fields() {
    let ok = MapUploadRequest::from_fields(&vec![("data".to_string(), vec![9, 8])]).unwrap();
    assert_eq!(ok.data, vec![9, 8]);
    assert_eq!(
        MapUploadRequest::from_fields(&vec![]).unwrap_err(),
        UploadError::MissingData
    );
    assert_eq!(
        MapUploadRequest::from_fields(&vec![("data".to_string(), vec![1]), ("data".to_string(), vec![2])])
            .unwrap_err(),
        UploadError::DuplicateData
    );
    assert_eq!(
        MapUploadRequest::from_fields(&vec![("data".to_string(), vec![1]), ("other".to_string(), vec![])])
            .unwrap_err(),
        UploadError::ExtraneousField
    );
    //The last error found is the one reported.
    assert_eq!(
        MapUploadRequest::from_fields(&vec![
            ("other".to_string(), vec![]),
            ("data".to_string(), vec![1]),
            ("data".to_string(), vec![2])
        ])
        .unwrap_err(),
        UploadError::DuplicateData
    );
}
