use vstd::prelude::*;

verus! {

/// One row of the declarative error catalog: the stable numeric code of
/// an error kind, its display template, the payload signature of its
/// variant, and the foreign error type it converts from, if any.
#[derive(Debug)]
pub struct ErrorRepositoryEntry {
    pub snake_case_name: String,
    pub code: u32,
    pub template: String,
    pub signature: String,
    pub converts_from: String,
}

/// Mathematical model of one catalog row.
pub struct EntryModel {
    pub snake_case_name: Seq<char>,
    pub code: u32,
    pub template: Seq<char>,
    pub signature: Seq<char>,
    pub converts_from: Seq<char>,
}

impl View for ErrorRepositoryEntry {
    type V = EntryModel;

    open spec fn view(&self) -> EntryModel {
        EntryModel {
            snake_case_name: self.snake_case_name@,
            code: self.code,
            template: self.template@,
            signature: self.signature@,
            converts_from: self.converts_from@,
        }
    }
}

/// A catalog row together with fields computed once from it, so later
/// passes need not recompute them.
#[derive(Debug)]
pub struct PreprocessedErrorRepositoryEntry {
    pub snake_case_name: String,
    pub code: u32,
    pub template: String,
    pub signature: String,
    pub converts_from: String,
    pub pascal_case_name: String,
    pub signature_wildcard_pattern: String,
}

pub open spec fn entry_views(s: Seq<ErrorRepositoryEntry>) -> Seq<EntryModel> {
    s.map_values(|e: ErrorRepositoryEntry| e@)
}

// The catalog rows, grouped by the magnitude that namespaces their codes.

pub open spec fn rows_general_a() -> Seq<EntryModel> {
    seq![
        EntryModel {
            snake_case_name: "error"@,
            code: 1,
            template: "Error"@,
            signature: ""@,
            converts_from: ""@,
        },
        EntryModel {
            snake_case_name: "invalid_configuration"@,
            code: 2,
            template: "Invalid configuration"@,
            signature: ""@,
            converts_from: ""@,
        },
        EntryModel {
            snake_case_name: "invalid_command"@,
            code: 3,
            template: "Invalid command"@,
            signature: ""@,
            converts_from: ""@,
        },
        EntryModel {
            snake_case_name: "invalid_format"@,
            code: 4,
            template: "Invalid format"@,
            signature: ""@,
            converts_from: ""@,
        },
        EntryModel {
            snake_case_name: "feature_unavailable"@,
            code: 5,
            template: "Feature is unavailable"@,
            signature: ""@,
            converts_from: ""@,
        },
        EntryModel {
            snake_case_name: "cannot_create_base_directory"@,
            code: 10,
            template: "Cannot create base directory"@,
            signature: ""@,
            converts_from: ""@,
        },
        EntryModel {
            snake_case_name: "resource_not_found"@,
            code: 20,
            template: "Resource with key: {0} was not found."@,
            signature: "String"@,
            converts_from: ""@,
        },
        EntryModel {
            snake_case_name: "cannot_load_resource"@,
            code: 21,
            template: "Cannot load resource with key: {0}"@,
            signature: "String"@,
            converts_from: ""@,
        },
        EntryModel {
            snake_case_name: "cannot_save_resource"@,
            code: 22,
            template: "Cannot save resource with key: {0}"@,
            signature: "String"@,
            converts_from: ""@,
        },
        EntryModel {
            snake_case_name: "cannot_delete_resource"@,
            code: 23,
            template: "Cannot delete resource with key: {0}"@,
            signature: "String"@,
            converts_from: ""@,
        },
        EntryModel {
            snake_case_name: "cannot_serialize_resource"@,
            code: 24,
            template: "Cannot serialize resource with key: {0}"@,
            signature: "String"@,
            converts_from: ""@,
        },
        EntryModel {
            snake_case_name: "cannot_deserialize_resource"@,
            code: 25,
            template: "Cannot deserialize resource with key: {0}"@,
            signature: "String"@,
            converts_from: ""@,
        },
        EntryModel {
            snake_case_name: "unauthenticated"@,
            code: 40,
            template: "Unauthenticated"@,
            signature: ""@,
            converts_from: ""@,
        },
        EntryModel {
            snake_case_name: "unauthorized"@,
            code: 41,
            template: "Unauthorized"@,
            signature: ""@,
            converts_from: ""@,
        },
        EntryModel {
            snake_case_name: "invalid_credentials"@,
            code: 42,
            template: "Invalid credentials"@,
            signature: ""@,
            converts_from: ""@,
        },
        EntryModel {
            snake_case_name: "invalid_username"@,
            code: 43,
            template: "Invalid username"@,
            signature: ""@,
            converts_from: ""@,
        },
        EntryModel {
            snake_case_name: "invalid_password"@,
            code: 44,
            template: "Invalid password"@,
            signature: ""@,
            converts_from: ""@,
        },
        EntryModel {
            snake_case_name: "invalid_user_status"@,
            code: 45,
            template: "Invalid user status"@,
            signature: ""@,
            converts_from: ""@,
        },
    ]
}
pub open spec fn rows_general_b() -> Seq<EntryModel> {
    seq![
        EntryModel {
            snake_case_name: "user_already_exists"@,
            code: 46,
            template: "User already exists"@,
            signature: ""@,
            converts_from: ""@,
        },
        EntryModel {
            snake_case_name: "user_inactive"@,
            code: 47,
            template: "User inactive"@,
            signature: ""@,
            converts_from: ""@,
        },
        EntryModel {
            snake_case_name: "cannot_delete_user"@,
            code: 48,
            template: "Cannot delete user with ID: {0}"@,
            signature: "u32"@,
            converts_from: ""@,
        },
        EntryModel {
            snake_case_name: "cannot_change_permissions"@,
            code: 49,
            template: "Cannot change permissions for user with ID: {0}"@,
            signature: "u32"@,
            converts_from: ""@,
        },
        EntryModel {
            snake_case_name: "not_connected"@,
            code: 51,
            template: "Not connected"@,
            signature: ""@,
            converts_from: ""@,
        },
        EntryModel {
            snake_case_name: "request_error"@,
            code: 52,
            template: "Request error"@,
            signature: ""@,
            converts_from: "reqwest::Error"@,
        },
        EntryModel {
            snake_case_name: "invalid_encryption_key"@,
            code: 60,
            template: "Invalid encryption key"@,
            signature: ""@,
            converts_from: ""@,
        },
        EntryModel {
            snake_case_name: "cannot_encrypt_data"@,
            code: 61,
            template: "Cannot encrypt data"@,
            signature: ""@,
            converts_from: ""@,
        },
        EntryModel {
            snake_case_name: "cannot_decrypt_data"@,
            code: 62,
            template: "Cannot decrypt data"@,
            signature: ""@,
            converts_from: ""@,
        },
        EntryModel {
            snake_case_name: "invalid_jwt_algorithm"@,
            code: 63,
            template: "Invalid JWT algorithm: {0}"@,
            signature: "String"@,
            converts_from: ""@,
        },
        EntryModel {
            snake_case_name: "invalid_jwt_secret"@,
            code: 64,
            template: "Invalid JWT secret"@,
            signature: ""@,
            converts_from: ""@,
        },
    ]
}
pub open spec fn rows_client_io_transport() -> Seq<EntryModel> {
    seq![
        EntryModel {
            snake_case_name: "client_not_found"@,
            code: 100,
            template: "Client with ID: {0} was not found."@,
            signature: "u32"@,
            converts_from: ""@,
        },
        EntryModel {
            snake_case_name: "invalid_client_id"@,
            code: 101,
            template: "Invalid client ID"@,
            signature: ""@,
            converts_from: ""@,
        },
        EntryModel {
            snake_case_name: "io_error"@,
            code: 200,
            template: "IO error"@,
            signature: ""@,
            converts_from: "io::Error"@,
        },
        EntryModel {
            snake_case_name: "write_error"@,
            code: 201,
            template: "Write error"@,
            signature: ""@,
            converts_from: "WriteError"@,
        },
        EntryModel {
            snake_case_name: "cannot_parse_utf8"@,
            code: 202,
            template: "Cannot parse UTF8"@,
            signature: ""@,
            converts_from: "Utf8Error"@,
        },
        EntryModel {
            snake_case_name: "cannot_parse_int"@,
            code: 203,
            template: "Cannot parse integer"@,
            signature: ""@,
            converts_from: "ParseIntError"@,
        },
        EntryModel {
            snake_case_name: "cannot_parse_slice"@,
            code: 204,
            template: "Cannot parse integer"@,
            signature: ""@,
            converts_from: "TryFromSliceError"@,
        },
        EntryModel {
            snake_case_name: "http_response_error"@,
            code: 300,
            template: "HTTP response error, status: {0}, body: {1}"@,
            signature: "u16, String"@,
            converts_from: ""@,
        },
        EntryModel {
            snake_case_name: "request_middleware_error"@,
            code: 301,
            template: "Request middleware error"@,
            signature: ""@,
            converts_from: "reqwest_middleware::Error"@,
        },
        EntryModel {
            snake_case_name: "cannot_create_endpoint"@,
            code: 302,
            template: "Cannot create endpoint"@,
            signature: ""@,
            converts_from: ""@,
        },
        EntryModel {
            snake_case_name: "cannot_parse_url"@,
            code: 303,
            template: "Cannot parse URL"@,
            signature: ""@,
            converts_from: ""@,
        },
        EntryModel {
            snake_case_name: "invalid_response"@,
            code: 304,
            template: "Invalid response: {0}"@,
            signature: "u32"@,
            converts_from: ""@,
        },
        EntryModel {
            snake_case_name: "empty_response"@,
            code: 305,
            template: "Empty response"@,
            signature: ""@,
            converts_from: ""@,
        },
        EntryModel {
            snake_case_name: "cannot_parse_address"@,
            code: 306,
            template: "Cannot parse address"@,
            signature: ""@,
            converts_from: "AddrParseError"@,
        },
        EntryModel {
            snake_case_name: "read_error"@,
            code: 307,
            template: "Read error"@,
            signature: ""@,
            converts_from: "ReadError"@,
        },
        EntryModel {
            snake_case_name: "connection_error"@,
            code: 308,
            template: "Connection error"@,
            signature: ""@,
            converts_from: "ConnectionError"@,
        },
        EntryModel {
            snake_case_name: "read_to_end_error"@,
            code: 309,
            template: "Read to end error"@,
            signature: ""@,
            converts_from: "ReadToEndError"@,
        },
    ]
}
pub open spec fn rows_streams() -> Seq<EntryModel> {
    seq![
        EntryModel {
            snake_case_name: "cannot_create_streams_directory"@,
            code: 1000,
            template: "Cannot create streams directory"@,
            signature: ""@,
            converts_from: ""@,
        },
        EntryModel {
            snake_case_name: "cannot_create_stream_directory"@,
            code: 1001,
            template: "Cannot create stream with ID: {0} directory"@,
            signature: "u32"@,
            converts_from: ""@,
        },
        EntryModel {
            snake_case_name: "cannot_create_stream_info"@,
            code: 1002,
            template: "Failed to create stream info file for stream with ID: {0}"@,
            signature: "u32"@,
            converts_from: ""@,
        },
        EntryModel {
            snake_case_name: "cannot_update_stream_info"@,
            code: 1003,
            template: "Failed to update stream info for stream with ID: {0}"@,
            signature: "u32"@,
            converts_from: ""@,
        },
        EntryModel {
            snake_case_name: "cannot_open_stream_info"@,
            code: 1004,
            template: "Failed to open stream info file for stream with ID: {0}"@,
            signature: "u32"@,
            converts_from: ""@,
        },
        EntryModel {
            snake_case_name: "cannot_read_stream_info"@,
            code: 1005,
            template: "Failed to read stream info file for stream with ID: {0}"@,
            signature: "u32"@,
            converts_from: ""@,
        },
        EntryModel {
            snake_case_name: "cannot_create_stream"@,
            code: 1006,
            template: "Failed to create stream with ID: {0}"@,
            signature: "u32"@,
            converts_from: ""@,
        },
        EntryModel {
            snake_case_name: "cannot_delete_stream"@,
            code: 1007,
            template: "Failed to delete stream with ID: {0}"@,
            signature: "u32"@,
            converts_from: ""@,
        },
        EntryModel {
            snake_case_name: "cannot_delete_stream_directory"@,
            code: 1008,
            template: "Failed to delete stream directory with ID: {0}"@,
            signature: "u32"@,
            converts_from: ""@,
        },
        EntryModel {
            snake_case_name: "stream_id_not_found"@,
            code: 1009,
            template: "Stream with ID: {0} was not found."@,
            signature: "u32"@,
            converts_from: ""@,
        },
        EntryModel {
            snake_case_name: "stream_name_not_found"@,
            code: 1010,
            template: "Stream with name: {0} was not found."@,
            signature: "String"@,
            converts_from: ""@,
        },
        EntryModel {
            snake_case_name: "stream_id_already_exists"@,
            code: 1011,
            template: "Stream with ID: {0} already exists."@,
            signature: "u32"@,
            converts_from: ""@,
        },
        EntryModel {
            snake_case_name: "stream_name_already_exists"@,
            code: 1012,
            template: "Stream with name: {0} already exists."@,
            signature: "String"@,
            converts_from: ""@,
        },
        EntryModel {
            snake_case_name: "invalid_stream_name"@,
            code: 1013,
            template: "Invalid stream name"@,
            signature: ""@,
            converts_from: ""@,
        },
        EntryModel {
            snake_case_name: "invalid_stream_id"@,
            code: 1014,
            template: "Invalid stream ID"@,
            signature: ""@,
            converts_from: ""@,
        },
        EntryModel {
            snake_case_name: "cannot_read_streams"@,
            code: 1015,
            template: "Cannot read streams"@,
            signature: ""@,
            converts_from: ""@,
        },
    ]
}
pub open spec fn rows_topics() -> Seq<EntryModel> {
    seq![
        EntryModel {
            snake_case_name: "cannot_create_topics_directory"@,
            code: 2000,
            template: "Cannot create topics directory for stream with ID: {0}"@,
            signature: "u32"@,
            converts_from: ""@,
        },
        EntryModel {
            snake_case_name: "cannot_create_topic_directory"@,
            code: 2001,
            template: "Failed to create directory for topic with ID: {0} for stream with ID: {1}."@,
            signature: "u32, u32"@,
            converts_from: ""@,
        },
        EntryModel {
            snake_case_name: "cannot_create_topic_info"@,
            code: 2002,
            template: "Failed to create topic info file for topic with ID: {0} for stream with ID: {1}."@,
            signature: "u32, u32"@,
            converts_from: ""@,
        },
        EntryModel {
            snake_case_name: "cannot_update_topic_info"@,
            code: 2003,
            template: "Failed to update topic info for topic with ID: {0} for stream with ID: {1}."@,
            signature: "u32, u32"@,
            converts_from: ""@,
        },
        EntryModel {
            snake_case_name: "cannot_open_topic_info"@,
            code: 2004,
            template: "Failed to open topic info file for topic with ID: {0} for stream with ID: {1}."@,
            signature: "u32, u32"@,
            converts_from: ""@,
        },
        EntryModel {
            snake_case_name: "cannot_read_topic_info"@,
            code: 2005,
            template: "Failed to read topic info file for topic with ID: {0} for stream with ID: {1}."@,
            signature: "u32, u32"@,
            converts_from: ""@,
        },
        EntryModel {
            snake_case_name: "cannot_create_topic"@,
            code: 2006,
            template: "Failed to create topic with ID: {0} for stream with ID: {1}."@,
            signature: "u32, u32"@,
            converts_from: ""@,
        },
        EntryModel {
            snake_case_name: "cannot_delete_topic"@,
            code: 2007,
            template: "Failed to delete topic with ID: {0} for stream with ID: {1}."@,
            signature: "u32, u32"@,
            converts_from: ""@,
        },
        EntryModel {
            snake_case_name: "cannot_delete_topic_directory"@,
            code: 2008,
            template: "Failed to delete topic directory with ID: {0} for stream with ID: {1}."@,
            signature: "u32, u32"@,
            converts_from: ""@,
        },
        EntryModel {
            snake_case_name: "cannot_poll_topic"@,
            code: 2009,
            template: "Cannot poll topic"@,
            signature: ""@,
            converts_from: ""@,
        },
        EntryModel {
            snake_case_name: "topic_id_not_found"@,
            code: 2010,
            template: "Topic with ID: {0} for stream with ID: {1} was not found."@,
            signature: "u32, u32"@,
            converts_from: ""@,
        },
        EntryModel {
            snake_case_name: "topic_name_not_found"@,
            code: 2011,
            template: "Topic with name: {0} for stream with ID: {1} was not found."@,
            signature: "String, u32"@,
            converts_from: ""@,
        },
        EntryModel {
            snake_case_name: "topic_id_already_exists"@,
            code: 2012,
            template: "Topic with ID: {0} for stream with ID: {1} already exists."@,
            signature: "u32, u32"@,
            converts_from: ""@,
        },
        EntryModel {
            snake_case_name: "topic_name_already_exists"@,
            code: 2013,
            template: "Topic with name: {0} for stream with ID: {1} already exists."@,
            signature: "String, u32"@,
            converts_from: ""@,
        },
        EntryModel {
            snake_case_name: "invalid_topic_name"@,
            code: 2014,
            template: "Invalid topic name"@,
            signature: ""@,
            converts_from: ""@,
        },
        EntryModel {
            snake_case_name: "too_many_partitions"@,
            code: 2015,
            template: "Too many partitions"@,
            signature: ""@,
            converts_from: ""@,
        },
        EntryModel {
            snake_case_name: "invalid_topic_id"@,
            code: 2016,
            template: "Invalid topic ID"@,
            signature: ""@,
            converts_from: ""@,
        },
        EntryModel {
            snake_case_name: "cannot_read_topics"@,
            code: 2017,
            template: "Cannot read topics for stream with ID: {0}"@,
            signature: "u32"@,
            converts_from: ""@,
        },
    ]
}
pub open spec fn rows_partitions() -> Seq<EntryModel> {
    seq![
        EntryModel {
            snake_case_name: "cannot_create_partition"@,
            code: 3000,
            template: "Cannot create partition with ID: {0} for stream with ID: {1} and topic with ID: {2}"@,
            signature: "u32, u32, u32"@,
            converts_from: ""@,
        },
        EntryModel {
            snake_case_name: "cannot_create_partitions_directory"@,
            code: 3001,
            template: "Failed to create directory for partitions for stream with ID: {0} and topic with ID: {1}"@,
            signature: "u32, u32"@,
            converts_from: ""@,
        },
        EntryModel {
            snake_case_name: "cannot_create_partition_directory"@,
            code: 3002,
            template: "Failed to create directory for partition with ID: {0} for stream with ID: {1} and topic with ID: {2}"@,
            signature: "u32, u32, u32"@,
            converts_from: ""@,
        },
        EntryModel {
            snake_case_name: "cannot_open_partition_log_file"@,
            code: 3003,
            template: "Cannot open partition log file"@,
            signature: ""@,
            converts_from: ""@,
        },
        EntryModel {
            snake_case_name: "cannot_read_partitions"@,
            code: 3004,
            template: "Failed to read partitions directories for topic with ID: {0} and stream with ID: {1}"@,
            signature: "u32, u32"@,
            converts_from: ""@,
        },
        EntryModel {
            snake_case_name: "cannot_delete_partition"@,
            code: 3005,
            template: "Failed to delete partition with ID: {0} for stream with ID: {1} and topic with ID: {2}"@,
            signature: "u32, u32, u32"@,
            converts_from: ""@,
        },
        EntryModel {
            snake_case_name: "cannot_delete_partition_directory"@,
            code: 3006,
            template: "Failed to delete partition directory with ID: {0} for stream with ID: {1} and topic with ID: {2}"@,
            signature: "u32, u32, u32"@,
            converts_from: ""@,
        },
        EntryModel {
            snake_case_name: "partition_not_found"@,
            code: 3007,
            template: "Partition with ID: {0} for topic with ID: {1} for stream with ID: {2} was not found."@,
            signature: "u32, u32, u32"@,
            converts_from: ""@,
        },
        EntryModel {
            snake_case_name: "no_partitions"@,
            code: 3008,
            template: "Topic with ID: {0} for stream with ID: {1} has no partitions."@,
            signature: "u32, u32"@,
            converts_from: ""@,
        },
    ]
}
pub open spec fn rows_segments_a() -> Seq<EntryModel> {
    seq![
        EntryModel {
            snake_case_name: "segment_not_found"@,
            code: 4000,
            template: "Segment not found"@,
            signature: ""@,
            converts_from: ""@,
        },
        EntryModel {
            snake_case_name: "segment_closed"@,
            code: 4001,
            template: "Segment with start offset: {0} and partition with ID: {1} is closed"@,
            signature: "u64, u32"@,
            converts_from: ""@,
        },
        EntryModel {
            snake_case_name: "invalid_segment_size"@,
            code: 4002,
            template: "Segment size is invalid"@,
            signature: "u64"@,
            converts_from: ""@,
        },
        EntryModel {
            snake_case_name: "cannot_create_segment_log_file"@,
            code: 4003,
            template: "Failed to create segment log file for path: {0}."@,
            signature: "String"@,
            converts_from: ""@,
        },
        EntryModel {
            snake_case_name: "cannot_create_segment_index_file"@,
            code: 4004,
            template: "Failed to create segment index file for path: {0}."@,
            signature: "String"@,
            converts_from: ""@,
        },
        EntryModel {
            snake_case_name: "cannot_create_segment_time_index_file"@,
            code: 4005,
            template: "Failed to create segment time index file for path: {0}."@,
            signature: "String"@,
            converts_from: ""@,
        },
        EntryModel {
            snake_case_name: "cannot_save_messages_to_segment"@,
            code: 4006,
            template: "Cannot save messages to segment"@,
            signature: ""@,
            converts_from: ""@,
        },
        EntryModel {
            snake_case_name: "cannot_save_index_to_segment"@,
            code: 4007,
            template: "Cannot save index to segment"@,
            signature: ""@,
            converts_from: ""@,
        },
        EntryModel {
            snake_case_name: "cannot_save_time_index_to_segment"@,
            code: 4008,
            template: "Cannot save time index to segment"@,
            signature: ""@,
            converts_from: ""@,
        },
        EntryModel {
            snake_case_name: "invalid_messages_count"@,
            code: 4009,
            template: "Invalid messages count"@,
            signature: ""@,
            converts_from: ""@,
        },
        EntryModel {
            snake_case_name: "cannot_append_message"@,
            code: 4010,
            template: "Cannot append message"@,
            signature: ""@,
            converts_from: ""@,
        },
        EntryModel {
            snake_case_name: "cannot_read_message"@,
            code: 4011,
            template: "Cannot read message"@,
            signature: ""@,
            converts_from: ""@,
        },
        EntryModel {
            snake_case_name: "cannot_read_message_id"@,
            code: 4012,
            template: "Cannot read message ID"@,
            signature: ""@,
            converts_from: ""@,
        },
        EntryModel {
            snake_case_name: "cannot_read_message_state"@,
            code: 4013,
            template: "Cannot read message state"@,
            signature: ""@,
            converts_from: ""@,
        },
        EntryModel {
            snake_case_name: "cannot_read_message_timestamp"@,
            code: 4014,
            template: "Cannot read message timestamp"@,
            signature: ""@,
            converts_from: ""@,
        },
        EntryModel {
            snake_case_name: "cannot_read_headers_length"@,
            code: 4015,
            template: "Cannot read headers length"@,
            signature: ""@,
            converts_from: ""@,
        },
        EntryModel {
            snake_case_name: "cannot_read_headers_payload"@,
            code: 4016,
            template: "Cannot read headers payload"@,
            signature: ""@,
            converts_from: ""@,
        },
        EntryModel {
            snake_case_name: "too_big_headers_payload"@,
            code: 4017,
            template: "Too big headers payload"@,
            signature: ""@,
            converts_from: ""@,
        },
    ]
}
pub open spec fn rows_segments_b() -> Seq<EntryModel> {
    seq![
        EntryModel {
            snake_case_name: "invalid_header_key"@,
            code: 4018,
            template: "Invalid header key"@,
            signature: ""@,
            converts_from: ""@,
        },
        EntryModel {
            snake_case_name: "invalid_header_value"@,
            code: 4019,
            template: "Invalid header value"@,
            signature: ""@,
            converts_from: ""@,
        },
        EntryModel {
            snake_case_name: "cannot_read_message_length"@,
            code: 4020,
            template: "Cannot read message length"@,
            signature: ""@,
            converts_from: ""@,
        },
        EntryModel {
            snake_case_name: "cannot_read_message_payload"@,
            code: 4021,
            template: "Cannot save messages to segment"@,
            signature: ""@,
            converts_from: ""@,
        },
        EntryModel {
            snake_case_name: "too_big_message_payload"@,
            code: 4022,
            template: "Too big message payload"@,
            signature: ""@,
            converts_from: ""@,
        },
        EntryModel {
            snake_case_name: "too_many_messages"@,
            code: 4023,
            template: "Too many messages"@,
            signature: ""@,
            converts_from: ""@,
        },
        EntryModel {
            snake_case_name: "empty_message_payload"@,
            code: 4024,
            template: "Empty message payload"@,
            signature: ""@,
            converts_from: ""@,
        },
        EntryModel {
            snake_case_name: "invalid_message_payload_length"@,
            code: 4025,
            template: "Invalid message payload length"@,
            signature: ""@,
            converts_from: ""@,
        },
        EntryModel {
            snake_case_name: "cannot_read_message_checksum"@,
            code: 4026,
            template: "Cannot read message checksum"@,
            signature: ""@,
            converts_from: ""@,
        },
        EntryModel {
            snake_case_name: "invalid_message_checksum"@,
            code: 4027,
            template: "Invalid message checksum: {0}, expected: {1}, for offset: {2}"@,
            signature: "u32, u32, u64"@,
            converts_from: ""@,
        },
        EntryModel {
            snake_case_name: "invalid_key_value_length"@,
            code: 4028,
            template: "Invalid key value length"@,
            signature: ""@,
            converts_from: ""@,
        },
        EntryModel {
            snake_case_name: "invalid_offset"@,
            code: 4100,
            template: "Invalid offset: {0}"@,
            signature: "u64"@,
            converts_from: ""@,
        },
        EntryModel {
            snake_case_name: "cannot_read_consumer_offsets"@,
            code: 4101,
            template: "Failed to read consumers offsets  for partition with ID: {0}"@,
            signature: "u32"@,
            converts_from: ""@,
        },
    ]
}
pub open spec fn rows_groups() -> Seq<EntryModel> {
    seq![
        EntryModel {
            snake_case_name: "consumer_group_not_found"@,
            code: 5000,
            template: "Consumer group with ID: {0} for topic with ID: {1} was not found."@,
            signature: "u32, u32"@,
            converts_from: ""@,
        },
        EntryModel {
            snake_case_name: "consumer_group_already_exists"@,
            code: 5001,
            template: "Consumer group with ID: {0} for topic with ID: {1} already exists."@,
            signature: "u32, u32"@,
            converts_from: ""@,
        },
        EntryModel {
            snake_case_name: "consumer_group_member_not_found"@,
            code: 5002,
            template: "Consumer group member with ID: {0} for group with ID: {1} for topic with ID: {2} was not found."@,
            signature: "u32, u32, u32"@,
            converts_from: ""@,
        },
        EntryModel {
            snake_case_name: "invalid_consumer_group_id"@,
            code: 5003,
            template: "Invalid consumer group ID"@,
            signature: ""@,
            converts_from: ""@,
        },
        EntryModel {
            snake_case_name: "invalid_consumer_group_name"@,
            code: 5004,
            template: "Invalid consumer group name"@,
            signature: ""@,
            converts_from: ""@,
        },
        EntryModel {
            snake_case_name: "consumer_group_name_already_exists"@,
            code: 5005,
            template: "Consumer group with name: {0} already exists."@,
            signature: "String"@,
            converts_from: ""@,
        },
        EntryModel {
            snake_case_name: "cannot_create_consumer_group_info"@,
            code: 5006,
            template: "Failed to create consumer group info file for ID: {0} for topic with ID: {1} for stream with ID: {2}."@,
            signature: "u32, u32, u32"@,
            converts_from: ""@,
        },
        EntryModel {
            snake_case_name: "cannot_delete_consumer_group_info"@,
            code: 5007,
            template: "Failed to delete consumer group info file for ID: {0} for topic with ID: {1} for stream with ID: {2}."@,
            signature: "u32, u32, u32"@,
            converts_from: ""@,
        },
    ]
}

/// The whole catalog: every row with its stable code, in ascending order
/// of code — 1 to 64 generic, 100s client, 200s io and parsing, 300s
/// transport, 1000s streams, 2000s topics, 3000s partitions, 4000s the
/// segment and message layer (4100s offsets), 5000s consumer groups.
pub open spec fn error_catalog() -> Seq<EntryModel> {
    rows_general_a() + rows_general_b() + rows_client_io_transport() + rows_streams() + rows_topics() + rows_partitions() + rows_segments_a() + rows_segments_b() + rows_groups()
}

fn push_entry(
    v: &mut Vec<ErrorRepositoryEntry>,
    name: &str,
    code: u32,
    template: &str,
    signature: &str,
    converts_from: &str,
)
    ensures
        final(v)@.len() == old(v)@.len() + 1,
        final(v)@.last().snake_case_name@ == name@,
        final(v)@.last().code == code,
        final(v)@.last().template@ == template@,
        final(v)@.last().signature@ == signature@,
        final(v)@.last().converts_from@ == converts_from@,
        forall|i: int| 0 <= i < old(v)@.len() ==> #[trigger] final(v)@[i] == old(v)@[i],
{
    let e = ErrorRepositoryEntry {
        snake_case_name: name.to_owned(),
        code,
        template: template.to_owned(),
        signature: signature.to_owned(),
        converts_from: converts_from.to_owned(),
    };
    v.push(e);
}

#[verifier::rlimit(100)]
fn push_general_a(v: &mut Vec<ErrorRepositoryEntry>)
    ensures
        entry_views(final(v)@) =~= entry_views(old(v)@) + rows_general_a(),
{
    push_entry(v, "error", 1, "Error", "", "");
    push_entry(v, "invalid_configuration", 2, "Invalid configuration", "", "");
    push_entry(v, "invalid_command", 3, "Invalid command", "", "");
    push_entry(v, "invalid_format", 4, "Invalid format", "", "");
    push_entry(v, "feature_unavailable", 5, "Feature is unavailable", "", "");
    push_entry(v, "cannot_create_base_directory", 10, "Cannot create base directory", "", "");
    push_entry(v, "resource_not_found", 20, "Resource with key: {0} was not found.", "String", "");
    push_entry(v, "cannot_load_resource", 21, "Cannot load resource with key: {0}", "String", "");
    push_entry(v, "cannot_save_resource", 22, "Cannot save resource with key: {0}", "String", "");
    push_entry(v, "cannot_delete_resource", 23, "Cannot delete resource with key: {0}", "String", "");
    push_entry(v, "cannot_serialize_resource", 24, "Cannot serialize resource with key: {0}", "String", "");
    push_entry(v, "cannot_deserialize_resource", 25, "Cannot deserialize resource with key: {0}", "String", "");
    push_entry(v, "unauthenticated", 40, "Unauthenticated", "", "");
    push_entry(v, "unauthorized", 41, "Unauthorized", "", "");
    push_entry(v, "invalid_credentials", 42, "Invalid credentials", "", "");
    push_entry(v, "invalid_username", 43, "Invalid username", "", "");
    push_entry(v, "invalid_password", 44, "Invalid password", "", "");
    push_entry(v, "invalid_user_status", 45, "Invalid user status", "", "");
    proof {
        let a = entry_views(v@);
        let b = entry_views(old(v)@) + rows_general_a();
        assert forall|t: int| 0 <= t < a.len() implies a[t] == b[t] by {
            assert(a[t] == v@[t]@);
        }
    }
}
#[verifier::rlimit(100)]
fn push_general_b(v: &mut Vec<ErrorRepositoryEntry>)
    ensures
        entry_views(final(v)@) =~= entry_views(old(v)@) + rows_general_b(),
{
    push_entry(v, "user_already_exists", 46, "User already exists", "", "");
    push_entry(v, "user_inactive", 47, "User inactive", "", "");
    push_entry(v, "cannot_delete_user", 48, "Cannot delete user with ID: {0}", "u32", "");
    push_entry(v, "cannot_change_permissions", 49, "Cannot change permissions for user with ID: {0}", "u32", "");
    push_entry(v, "not_connected", 51, "Not connected", "", "");
    push_entry(v, "request_error", 52, "Request error", "", "reqwest::Error");
    push_entry(v, "invalid_encryption_key", 60, "Invalid encryption key", "", "");
    push_entry(v, "cannot_encrypt_data", 61, "Cannot encrypt data", "", "");
    push_entry(v, "cannot_decrypt_data", 62, "Cannot decrypt data", "", "");
    push_entry(v, "invalid_jwt_algorithm", 63, "Invalid JWT algorithm: {0}", "String", "");
    push_entry(v, "invalid_jwt_secret", 64, "Invalid JWT secret", "", "");
    proof {
        let a = entry_views(v@);
        let b = entry_views(old(v)@) + rows_general_b();
        assert forall|t: int| 0 <= t < a.len() implies a[t] == b[t] by {
            assert(a[t] == v@[t]@);
        }
    }
}
#[verifier::rlimit(100)]
fn push_client_io_transport(v: &mut Vec<ErrorRepositoryEntry>)
    ensures
        entry_views(final(v)@) =~= entry_views(old(v)@) + rows_client_io_transport(),
{
    push_entry(v, "client_not_found", 100, "Client with ID: {0} was not found.", "u32", "");
    push_entry(v, "invalid_client_id", 101, "Invalid client ID", "", "");
    push_entry(v, "io_error", 200, "IO error", "", "io::Error");
    push_entry(v, "write_error", 201, "Write error", "", "WriteError");
    push_entry(v, "cannot_parse_utf8", 202, "Cannot parse UTF8", "", "Utf8Error");
    push_entry(v, "cannot_parse_int", 203, "Cannot parse integer", "", "ParseIntError");
    push_entry(v, "cannot_parse_slice", 204, "Cannot parse integer", "", "TryFromSliceError");
    push_entry(v, "http_response_error", 300, "HTTP response error, status: {0}, body: {1}", "u16, String", "");
    push_entry(v, "request_middleware_error", 301, "Request middleware error", "", "reqwest_middleware::Error");
    push_entry(v, "cannot_create_endpoint", 302, "Cannot create endpoint", "", "");
    push_entry(v, "cannot_parse_url", 303, "Cannot parse URL", "", "");
    push_entry(v, "invalid_response", 304, "Invalid response: {0}", "u32", "");
    push_entry(v, "empty_response", 305, "Empty response", "", "");
    push_entry(v, "cannot_parse_address", 306, "Cannot parse address", "", "AddrParseError");
    push_entry(v, "read_error", 307, "Read error", "", "ReadError");
    push_entry(v, "connection_error", 308, "Connection error", "", "ConnectionError");
    push_entry(v, "read_to_end_error", 309, "Read to end error", "", "ReadToEndError");
    proof {
        let a = entry_views(v@);
        let b = entry_views(old(v)@) + rows_client_io_transport();
        assert forall|t: int| 0 <= t < a.len() implies a[t] == b[t] by {
            assert(a[t] == v@[t]@);
        }
    }
}
#[verifier::rlimit(100)]
fn push_streams(v: &mut Vec<ErrorRepositoryEntry>)
    ensures
        entry_views(final(v)@) =~= entry_views(old(v)@) + rows_streams(),
{
    push_entry(v, "cannot_create_streams_directory", 1000, "Cannot create streams directory", "", "");
    push_entry(v, "cannot_create_stream_directory", 1001, "Cannot create stream with ID: {0} directory", "u32", "");
    push_entry(v, "cannot_create_stream_info", 1002, "Failed to create stream info file for stream with ID: {0}", "u32", "");
    push_entry(v, "cannot_update_stream_info", 1003, "Failed to update stream info for stream with ID: {0}", "u32", "");
    push_entry(v, "cannot_open_stream_info", 1004, "Failed to open stream info file for stream with ID: {0}", "u32", "");
    push_entry(v, "cannot_read_stream_info", 1005, "Failed to read stream info file for stream with ID: {0}", "u32", "");
    push_entry(v, "cannot_create_stream", 1006, "Failed to create stream with ID: {0}", "u32", "");
    push_entry(v, "cannot_delete_stream", 1007, "Failed to delete stream with ID: {0}", "u32", "");
    push_entry(v, "cannot_delete_stream_directory", 1008, "Failed to delete stream directory with ID: {0}", "u32", "");
    push_entry(v, "stream_id_not_found", 1009, "Stream with ID: {0} was not found.", "u32", "");
    push_entry(v, "stream_name_not_found", 1010, "Stream with name: {0} was not found.", "String", "");
    push_entry(v, "stream_id_already_exists", 1011, "Stream with ID: {0} already exists.", "u32", "");
    push_entry(v, "stream_name_already_exists", 1012, "Stream with name: {0} already exists.", "String", "");
    push_entry(v, "invalid_stream_name", 1013, "Invalid stream name", "", "");
    push_entry(v, "invalid_stream_id", 1014, "Invalid stream ID", "", "");
    push_entry(v, "cannot_read_streams", 1015, "Cannot read streams", "", "");
    proof {
        let a = entry_views(v@);
        let b = entry_views(old(v)@) + rows_streams();
        assert forall|t: int| 0 <= t < a.len() implies a[t] == b[t] by {
            assert(a[t] == v@[t]@);
        }
    }
}
#[verifier::rlimit(100)]
fn push_topics(v: &mut Vec<ErrorRepositoryEntry>)
    ensures
        entry_views(final(v)@) =~= entry_views(old(v)@) + rows_topics(),
{
    push_entry(v, "cannot_create_topics_directory", 2000, "Cannot create topics directory for stream with ID: {0}", "u32", "");
    push_entry(v, "cannot_create_topic_directory", 2001, "Failed to create directory for topic with ID: {0} for stream with ID: {1}.", "u32, u32", "");
    push_entry(v, "cannot_create_topic_info", 2002, "Failed to create topic info file for topic with ID: {0} for stream with ID: {1}.", "u32, u32", "");
    push_entry(v, "cannot_update_topic_info", 2003, "Failed to update topic info for topic with ID: {0} for stream with ID: {1}.", "u32, u32", "");
    push_entry(v, "cannot_open_topic_info", 2004, "Failed to open topic info file for topic with ID: {0} for stream with ID: {1}.", "u32, u32", "");
    push_entry(v, "cannot_read_topic_info", 2005, "Failed to read topic info file for topic with ID: {0} for stream with ID: {1}.", "u32, u32", "");
    push_entry(v, "cannot_create_topic", 2006, "Failed to create topic with ID: {0} for stream with ID: {1}.", "u32, u32", "");
    push_entry(v, "cannot_delete_topic", 2007, "Failed to delete topic with ID: {0} for stream with ID: {1}.", "u32, u32", "");
    push_entry(v, "cannot_delete_topic_directory", 2008, "Failed to delete topic directory with ID: {0} for stream with ID: {1}.", "u32, u32", "");
    push_entry(v, "cannot_poll_topic", 2009, "Cannot poll topic", "", "");
    push_entry(v, "topic_id_not_found", 2010, "Topic with ID: {0} for stream with ID: {1} was not found.", "u32, u32", "");
    push_entry(v, "topic_name_not_found", 2011, "Topic with name: {0} for stream with ID: {1} was not found.", "String, u32", "");
    push_entry(v, "topic_id_already_exists", 2012, "Topic with ID: {0} for stream with ID: {1} already exists.", "u32, u32", "");
    push_entry(v, "topic_name_already_exists", 2013, "Topic with name: {0} for stream with ID: {1} already exists.", "String, u32", "");
    push_entry(v, "invalid_topic_name", 2014, "Invalid topic name", "", "");
    push_entry(v, "too_many_partitions", 2015, "Too many partitions", "", "");
    push_entry(v, "invalid_topic_id", 2016, "Invalid topic ID", "", "");
    push_entry(v, "cannot_read_topics", 2017, "Cannot read topics for stream with ID: {0}", "u32", "");
    proof {
        let a = entry_views(v@);
        let b = entry_views(old(v)@) + rows_topics();
        assert forall|t: int| 0 <= t < a.len() implies a[t] == b[t] by {
            assert(a[t] == v@[t]@);
        }
    }
}
#[verifier::rlimit(100)]
fn push_partitions(v: &mut Vec<ErrorRepositoryEntry>)
    ensures
        entry_views(final(v)@) =~= entry_views(old(v)@) + rows_partitions(),
{
    push_entry(v, "cannot_create_partition", 3000, "Cannot create partition with ID: {0} for stream with ID: {1} and topic with ID: {2}", "u32, u32, u32", "");
    push_entry(v, "cannot_create_partitions_directory", 3001, "Failed to create directory for partitions for stream with ID: {0} and topic with ID: {1}", "u32, u32", "");
    push_entry(v, "cannot_create_partition_directory", 3002, "Failed to create directory for partition with ID: {0} for stream with ID: {1} and topic with ID: {2}", "u32, u32, u32", "");
    push_entry(v, "cannot_open_partition_log_file", 3003, "Cannot open partition log file", "", "");
    push_entry(v, "cannot_read_partitions", 3004, "Failed to read partitions directories for topic with ID: {0} and stream with ID: {1}", "u32, u32", "");
    push_entry(v, "cannot_delete_partition", 3005, "Failed to delete partition with ID: {0} for stream with ID: {1} and topic with ID: {2}", "u32, u32, u32", "");
    push_entry(v, "cannot_delete_partition_directory", 3006, "Failed to delete partition directory with ID: {0} for stream with ID: {1} and topic with ID: {2}", "u32, u32, u32", "");
    push_entry(v, "partition_not_found", 3007, "Partition with ID: {0} for topic with ID: {1} for stream with ID: {2} was not found.", "u32, u32, u32", "");
    push_entry(v, "no_partitions", 3008, "Topic with ID: {0} for stream with ID: {1} has no partitions.", "u32, u32", "");
    proof {
        let a = entry_views(v@);
        let b = entry_views(old(v)@) + rows_partitions();
        assert forall|t: int| 0 <= t < a.len() implies a[t] == b[t] by {
            assert(a[t] == v@[t]@);
        }
    }
}
#[verifier::rlimit(100)]
fn push_segments_a(v: &mut Vec<ErrorRepositoryEntry>)
    ensures
        entry_views(final(v)@) =~= entry_views(old(v)@) + rows_segments_a(),
{
    push_entry(v, "segment_not_found", 4000, "Segment not found", "", "");
    push_entry(v, "segment_closed", 4001, "Segment with start offset: {0} and partition with ID: {1} is closed", "u64, u32", "");
    push_entry(v, "invalid_segment_size", 4002, "Segment size is invalid", "u64", "");
    push_entry(v, "cannot_create_segment_log_file", 4003, "Failed to create segment log file for path: {0}.", "String", "");
    push_entry(v, "cannot_create_segment_index_file", 4004, "Failed to create segment index file for path: {0}.", "String", "");
    push_entry(v, "cannot_create_segment_time_index_file", 4005, "Failed to create segment time index file for path: {0}.", "String", "");
    push_entry(v, "cannot_save_messages_to_segment", 4006, "Cannot save messages to segment", "", "");
    push_entry(v, "cannot_save_index_to_segment", 4007, "Cannot save index to segment", "", "");
    push_entry(v, "cannot_save_time_index_to_segment", 4008, "Cannot save time index to segment", "", "");
    push_entry(v, "invalid_messages_count", 4009, "Invalid messages count", "", "");
    push_entry(v, "cannot_append_message", 4010, "Cannot append message", "", "");
    push_entry(v, "cannot_read_message", 4011, "Cannot read message", "", "");
    push_entry(v, "cannot_read_message_id", 4012, "Cannot read message ID", "", "");
    push_entry(v, "cannot_read_message_state", 4013, "Cannot read message state", "", "");
    push_entry(v, "cannot_read_message_timestamp", 4014, "Cannot read message timestamp", "", "");
    push_entry(v, "cannot_read_headers_length", 4015, "Cannot read headers length", "", "");
    push_entry(v, "cannot_read_headers_payload", 4016, "Cannot read headers payload", "", "");
    push_entry(v, "too_big_headers_payload", 4017, "Too big headers payload", "", "");
    proof {
        let a = entry_views(v@);
        let b = entry_views(old(v)@) + rows_segments_a();
        assert forall|t: int| 0 <= t < a.len() implies a[t] == b[t] by {
            assert(a[t] == v@[t]@);
        }
    }
}
#[verifier::rlimit(100)]
fn push_segments_b(v: &mut Vec<ErrorRepositoryEntry>)
    ensures
        entry_views(final(v)@) =~= entry_views(old(v)@) + rows_segments_b(),
{
    push_entry(v, "invalid_header_key", 4018, "Invalid header key", "", "");
    push_entry(v, "invalid_header_value", 4019, "Invalid header value", "", "");
    push_entry(v, "cannot_read_message_length", 4020, "Cannot read message length", "", "");
    push_entry(v, "cannot_read_message_payload", 4021, "Cannot save messages to segment", "", "");
    push_entry(v, "too_big_message_payload", 4022, "Too big message payload", "", "");
    push_entry(v, "too_many_messages", 4023, "Too many messages", "", "");
    push_entry(v, "empty_message_payload", 4024, "Empty message payload", "", "");
    push_entry(v, "invalid_message_payload_length", 4025, "Invalid message payload length", "", "");
    push_entry(v, "cannot_read_message_checksum", 4026, "Cannot read message checksum", "", "");
    push_entry(v, "invalid_message_checksum", 4027, "Invalid message checksum: {0}, expected: {1}, for offset: {2}", "u32, u32, u64", "");
    push_entry(v, "invalid_key_value_length", 4028, "Invalid key value length", "", "");
    push_entry(v, "invalid_offset", 4100, "Invalid offset: {0}", "u64", "");
    push_entry(v, "cannot_read_consumer_offsets", 4101, "Failed to read consumers offsets  for partition with ID: {0}", "u32", "");
    proof {
        let a = entry_views(v@);
        let b = entry_views(old(v)@) + rows_segments_b();
        assert forall|t: int| 0 <= t < a.len() implies a[t] == b[t] by {
            assert(a[t] == v@[t]@);
        }
    }
}
#[verifier::rlimit(100)]
fn push_groups(v: &mut Vec<ErrorRepositoryEntry>)
    ensures
        entry_views(final(v)@) =~= entry_views(old(v)@) + rows_groups(),
{
    push_entry(v, "consumer_group_not_found", 5000, "Consumer group with ID: {0} for topic with ID: {1} was not found.", "u32, u32", "");
    push_entry(v, "consumer_group_already_exists", 5001, "Consumer group with ID: {0} for topic with ID: {1} already exists.", "u32, u32", "");
    push_entry(v, "consumer_group_member_not_found", 5002, "Consumer group member with ID: {0} for group with ID: {1} for topic with ID: {2} was not found.", "u32, u32, u32", "");
    push_entry(v, "invalid_consumer_group_id", 5003, "Invalid consumer group ID", "", "");
    push_entry(v, "invalid_consumer_group_name", 5004, "Invalid consumer group name", "", "");
    push_entry(v, "consumer_group_name_already_exists", 5005, "Consumer group with name: {0} already exists.", "String", "");
    push_entry(v, "cannot_create_consumer_group_info", 5006, "Failed to create consumer group info file for ID: {0} for topic with ID: {1} for stream with ID: {2}.", "u32, u32, u32", "");
    push_entry(v, "cannot_delete_consumer_group_info", 5007, "Failed to delete consumer group info file for ID: {0} for topic with ID: {1} for stream with ID: {2}.", "u32, u32, u32", "");
    proof {
        let a = entry_views(v@);
        let b = entry_views(old(v)@) + rows_groups();
        assert forall|t: int| 0 <= t < a.len() implies a[t] == b[t] by {
            assert(a[t] == v@[t]@);
        }
    }
}

/// The full error catalog, exactly `error_catalog` row for row.
pub fn load_errors() -> (r: Vec<ErrorRepositoryEntry>)
    ensures
        entry_views(r@) == error_catalog(),
        r@.len() == 128,
{
    let mut v: Vec<ErrorRepositoryEntry> = Vec::new();
    proof {
        assert(entry_views(v@) =~= Seq::<EntryModel>::empty());
    }
    push_general_a(&mut v);
    push_general_b(&mut v);
    push_client_io_transport(&mut v);
    push_streams(&mut v);
    push_topics(&mut v);
    push_partitions(&mut v);
    push_segments_a(&mut v);
    push_segments_b(&mut v);
    push_groups(&mut v);
    proof {
        assert(entry_views(v@) =~= error_catalog());
    }
    v
}

/// Codes strictly ascend within a run of rows.
pub open spec fn codes_ascending(s: Seq<EntryModel>) -> bool {
    forall|i: int, j: int|
        0 <= i < j < s.len() ==> (#[trigger] s[i]).code < (#[trigger] s[j]).code
}

/// Every code of the run lies strictly below the bound.
pub open spec fn codes_below(s: Seq<EntryModel>, b: u32) -> bool {
    forall|i: int| 0 <= i < s.len() ==> (#[trigger] s[i]).code < b
}

/// Every code of the run lies at or above the bound.
pub open spec fn codes_at_least(s: Seq<EntryModel>, b: u32) -> bool {
    forall|i: int| 0 <= i < s.len() ==> (#[trigger] s[i]).code >= b
}

/// Two ascending runs separated by a bound concatenate to an ascending run.
proof fn lemma_ascending_concat(a: Seq<EntryModel>, b: Seq<EntryModel>, bound: u32)
    requires
        codes_ascending(a),
        codes_ascending(b),
        codes_below(a, bound),
        codes_at_least(b, bound),
    ensures
        codes_ascending(a + b),
{
    assert forall|i: int, j: int| 0 <= i < j < (a + b).len() implies ((a + b)[i]).code < ((a
        + b)[j]).code by {
        if j < a.len() {
            assert((a + b)[i] == a[i] && (a + b)[j] == a[j]);
        } else if i >= a.len() {
            assert((a + b)[i] == b[i - a.len()] && (a + b)[j] == b[j - a.len()]);
        } else {
            assert((a + b)[i] == a[i] && (a + b)[j] == b[j - a.len()]);
        }
    }
}

/// Bounds carry through concatenation.
proof fn lemma_below_concat(a: Seq<EntryModel>, b: Seq<EntryModel>, bound: u32)
    requires
        codes_below(a, bound),
        codes_below(b, bound),
    ensures
        codes_below(a + b, bound),
{
    assert forall|i: int| 0 <= i < (a + b).len() implies ((a + b)[i]).code < bound by {
        if i < a.len() {
            assert((a + b)[i] == a[i]);
        } else {
            assert((a + b)[i] == b[i - a.len()]);
        }
    }
}

/// The catalog's stable codes appear in strictly ascending order, so in
/// particular no code is ever reused for a different meaning.
#[verifier::rlimit(100)]
pub proof fn lemma_catalog_codes_ascending()
    ensures
        codes_ascending(error_catalog()),
{
    assert(codes_ascending(rows_general_a()));
    assert(codes_ascending(rows_general_b()));
    assert(codes_ascending(rows_client_io_transport()));
    assert(codes_ascending(rows_streams()));
    assert(codes_ascending(rows_topics()));
    assert(codes_ascending(rows_partitions()));
    assert(codes_ascending(rows_segments_a()));
    assert(codes_ascending(rows_segments_b()));
    assert(codes_ascending(rows_groups()));
    assert(codes_below(rows_general_a(), 46));
    assert(codes_below(rows_general_b(), 100));
    assert(codes_below(rows_client_io_transport(), 1000));
    assert(codes_below(rows_streams(), 2000));
    assert(codes_below(rows_topics(), 3000));
    assert(codes_below(rows_partitions(), 4000));
    assert(codes_below(rows_segments_a(), 4018));
    assert(codes_below(rows_segments_b(), 5000));
    assert(codes_at_least(rows_general_b(), 46));
    assert(codes_at_least(rows_client_io_transport(), 100));
    assert(codes_at_least(rows_streams(), 1000));
    assert(codes_at_least(rows_topics(), 2000));
    assert(codes_at_least(rows_partitions(), 3000));
    assert(codes_at_least(rows_segments_a(), 4000));
    assert(codes_at_least(rows_segments_b(), 4018));
    assert(codes_at_least(rows_groups(), 5000));
    lemma_ascending_concat(rows_general_a(), rows_general_b(), 46);
    lemma_below_concat(rows_general_a(), rows_general_b(), 100);
    lemma_ascending_concat((rows_general_a() + rows_general_b()), rows_client_io_transport(), 100);
    lemma_below_concat((rows_general_a() + rows_general_b()), rows_client_io_transport(), 1000);
    lemma_ascending_concat(((rows_general_a() + rows_general_b()) + rows_client_io_transport()), rows_streams(), 1000);
    lemma_below_concat(((rows_general_a() + rows_general_b()) + rows_client_io_transport()), rows_streams(), 2000);
    lemma_ascending_concat((((rows_general_a() + rows_general_b()) + rows_client_io_transport()) + rows_streams()), rows_topics(), 2000);
    lemma_below_concat((((rows_general_a() + rows_general_b()) + rows_client_io_transport()) + rows_streams()), rows_topics(), 3000);
    lemma_ascending_concat(((((rows_general_a() + rows_general_b()) + rows_client_io_transport()) + rows_streams()) + rows_topics()), rows_partitions(), 3000);
    lemma_below_concat(((((rows_general_a() + rows_general_b()) + rows_client_io_transport()) + rows_streams()) + rows_topics()), rows_partitions(), 4000);
    lemma_ascending_concat((((((rows_general_a() + rows_general_b()) + rows_client_io_transport()) + rows_streams()) + rows_topics()) + rows_partitions()), rows_segments_a(), 4000);
    lemma_below_concat((((((rows_general_a() + rows_general_b()) + rows_client_io_transport()) + rows_streams()) + rows_topics()) + rows_partitions()), rows_segments_a(), 4018);
    lemma_ascending_concat(((((((rows_general_a() + rows_general_b()) + rows_client_io_transport()) + rows_streams()) + rows_topics()) + rows_partitions()) + rows_segments_a()), rows_segments_b(), 4018);
    lemma_below_concat(((((((rows_general_a() + rows_general_b()) + rows_client_io_transport()) + rows_streams()) + rows_topics()) + rows_partitions()) + rows_segments_a()), rows_segments_b(), 5000);
    lemma_ascending_concat((((((((rows_general_a() + rows_general_b()) + rows_client_io_transport()) + rows_streams()) + rows_topics()) + rows_partitions()) + rows_segments_a()) + rows_segments_b()), rows_groups(), 5000);
}

} // verus!
