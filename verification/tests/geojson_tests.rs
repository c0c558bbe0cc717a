use spatialbench::geojson::make_feature_collection;

#[test]
fn feature_collection_empty() {
    let features: Vec<String> = Vec::new();
    assert_eq!(
        make_feature_collection(&features),
        "{\"type\": \"FeatureCollection\",\"features\": []}"
    );
}

#[test]
fn feature_collection_single() {
    let features = vec![String::from("{\"a\": 1}")];
    assert_eq!(
        make_feature_collection(&features),
        "{\"type\": \"FeatureCollection\",\"features\": [{\"a\": 1}]}"
    );
}

#[test]
fn feature_collection_joins_with_commas() {
    let features = vec![String::from("x"), String::from("y"), String::from("z")];
    assert_eq!(
        make_feature_collection(&features),
        "{\"type\": \"FeatureCollection\",\"features\": [x,y,z]}"
    );
}
