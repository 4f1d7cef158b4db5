use mpc_home_control::influxdb::InfluxQuery;

#[test]
fn query_with_range_only() {
    let q = InfluxQuery::new("home", "-30d", None);
    assert_eq!(
        q.get_query_string(),
        "from(bucket: \"home\") |> range(start: -30d)"
    );
}

#[test]
fn query_with_stop_filters_and_last() {
    let mut q = InfluxQuery::new("home", "-1h", Some("now()"));
    q.filter("_measurement", "temperature");
    q.filter_tags(&vec![("room".to_string(), "kitchen".to_string())]);
    q.last();
    assert_eq!(
        q.get_query_string(),
        "from(bucket: \"home\") |> range(start: -1h, stop: now()) \
         |> filter(fn: (r) => r[\"_measurement\"] == \"temperature\") \
         |> filter(fn: (r) => r[\"room\"] == \"kitchen\") |> last()"
    );
}
