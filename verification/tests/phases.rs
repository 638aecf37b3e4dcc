use vop_download::types::{parse_operation_name, DownloadOperation};

#[test]
fn phase_names_are_read() {
    assert!(parse_operation_name("parseSource") == DownloadOperation::ParseSource);
    assert!(parse_operation_name("downloadSlice") == DownloadOperation::DownloadSlice);
    assert!(parse_operation_name("checkSource") == DownloadOperation::CheckSource);
    assert!(parse_operation_name("merger") == DownloadOperation::Merger);
    assert!(parse_operation_name("downloadEnd") == DownloadOperation::DownloadEnd);
    assert!(parse_operation_name("") == DownloadOperation::UnsupportedOperation);
    assert!(parse_operation_name("Merger") == DownloadOperation::UnsupportedOperation);
}
