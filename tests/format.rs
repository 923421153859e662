use geobraille::{get_file_format, FormatError, InputFormat};

#[test]
fn test_get_file_format() {
    assert!(matches!(get_file_format("test.GEOJSON", None), Ok(InputFormat::GeoJson)));
    assert!(matches!(get_file_format("test.geojson", Some("csv")), Ok(InputFormat::Csv)));
}

#[test]
fn every_format_name() {
    let names = [
        ("geojson", InputFormat::GeoJson),
        ("TopoJSON", InputFormat::TopoJson),
        ("csv", InputFormat::Csv),
        ("SHP", InputFormat::Shapefile),
        ("wkt", InputFormat::Wkt),
        ("Polyline", InputFormat::Polyline),
        ("kml", InputFormat::Kml),
    ];
    for (n, f) in names {
        assert_eq!(InputFormat::from_str(n), Ok(f));
    }
}

#[test]
fn unknown_formats_are_refused() {
    assert_eq!(get_file_format("map.png", None), Err(FormatError::InvalidFormat));
    assert_eq!(get_file_format("noext", None), Err(FormatError::InvalidFormat));
    assert_eq!(get_file_format("dir.v2/file.", None), Err(FormatError::InvalidFormat));
    assert_eq!(get_file_format("a.kml", Some("json")), Err(FormatError::InvalidFormat));
    assert_eq!(get_file_format("archive.tar.wkt", None), Ok(InputFormat::Wkt));
    assert_eq!(get_file_format("kml", None), Ok(InputFormat::Kml));
}
