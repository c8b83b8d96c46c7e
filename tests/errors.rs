use flutter_layer::error::{
    check_engine_call, session_result, EmbedderError, FFIFlutterEngineResultExt,
    FlutterEngineError,
};

#[test]
fn engine_codes_map_to_errors() {
    assert_eq!(0u32.into_flutter_engine_result(), Ok(()));
    assert_eq!(1u32.into_flutter_engine_result(), Err(FlutterEngineError::InvalidLibraryVersion));
    assert_eq!(2u32.into_flutter_engine_result(), Err(FlutterEngineError::InvalidArguments));
    assert_eq!(3u32.into_flutter_engine_result(), Err(FlutterEngineError::InternalInconsistency));
    assert_eq!(4u32.into_flutter_engine_result(), Err(FlutterEngineError::Unknown(4)));
    assert_eq!(u32::MAX.into_flutter_engine_result(), Err(FlutterEngineError::Unknown(u32::MAX)));
}

#[test]
fn engine_calls_lift_into_embedder_errors() {
    assert_eq!(check_engine_call(0), Ok(()));
    assert_eq!(
        check_engine_call(2),
        Err(EmbedderError::Engine(FlutterEngineError::InvalidArguments))
    );
    assert_eq!(
        check_engine_call(77),
        Err(EmbedderError::Engine(FlutterEngineError::Unknown(77)))
    );
}

#[test]
fn closed_terminate_channel_ends_session_with_failure() {
    assert_eq!(session_result(None), Err(EmbedderError::TerminateChannelClosed));
}

#[test]
fn reported_error_ends_session_with_failure() {
    let e = EmbedderError::Engine(FlutterEngineError::InternalInconsistency);
    assert_eq!(session_result(Some(Err(e))), Err(e));
    assert_eq!(
        session_result(Some(Err(EmbedderError::InvalidBackingStoreAbi))),
        Err(EmbedderError::InvalidBackingStoreAbi)
    );
}

#[test]
fn orderly_terminate_message_ends_session() {
    assert_eq!(session_result(Some(Ok(()))), Ok(()));
}
