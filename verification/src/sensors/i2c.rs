pub mod bus_scan;
