pub mod sensor_labels;
