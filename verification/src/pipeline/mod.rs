pub mod ring_buffer;
pub mod window_builder;
pub mod arrow_serializer;
