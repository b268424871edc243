use k2::k2_stream::connections::{ConnectionGraph, Input, Output};
use k2::k2_stream::errors::{processor_error_to_str, K2Error, K2ErrorCode, ProcessorError};
use k2::k2_stream::memory::{DataTrait, Memory};
use k2::k2_stream::modes::{Chain, ChainBuilder, OperativeMode};
use k2::k2_stream::parameters::{Parameter, ParameterRangeType, ParameterType, ParameterValueType};
use k2::k2_stream::processors::{StreamBlock, StreamType};
use k2::k2_stream::states::State;
use k2::k2_stream::stream_controller::{ProcessorRegistry, StreamController, StreamIds};

#[test]
fn test_io() {
    let input_test = Input::<String>::new("test_input".to_string());
    assert_eq!(input_test.get_header(), &"test_input".to_string());
    let mut output_test = Output::<String>::new("test_output".to_string());
    assert_eq!(output_test.get_header(), &"test_output".to_string());
    let sender = input_test.get_sender();
    output_test.connect(sender);
    assert!(output_test.send("hello".to_string()).is_ok());
    let input = input_test.receive();
    assert!(input.is_ok());
    if let Ok(res) = input {
        assert_eq!(res, "hello".to_string());
    }
}

#[test]
fn test_connection_graph() {
    let mut graph = ConnectionGraph::new();
    graph.add_connection("test_1".to_string(), "test_2".to_string());
    graph.add_connection("test_3".to_string(), "test_4".to_string());
    graph.add_connection("test_3".to_string(), "test_2".to_string());
    graph.add_connection("test_5".to_string(), "test_4".to_string());

    assert!(!graph.is_sorted());
    assert!(graph.check().is_ok());
    assert!(graph.is_sorted());
    let nodes = graph.get_nodes();
    assert_eq!(nodes[0], "test_1".to_string());
    assert_eq!(nodes[1], "test_3".to_string());
    assert_eq!(nodes[2], "test_2".to_string());
    assert_eq!(nodes[3], "test_5".to_string());
    assert_eq!(nodes[4], "test_4".to_string());
    graph.add_connection("test_2".to_string(), "test_1".to_string());
    assert!(!graph.is_sorted());
    assert!(graph.check().is_err());
}

#[test]
fn test_memory() {
    let mut test_memory = Memory::new();
    let param = Parameter::<f64>::float("test".to_string(), 0.0, ParameterType::DYNAMIC).unwrap();
    assert!(test_memory.insert("test".to_string(), param).is_ok());
    let param = Parameter::<f64>::float("test".to_string(), 0.0, ParameterType::DYNAMIC).unwrap();
    assert!(test_memory.insert("test".to_string(), param).is_err());
    assert!(!test_memory.is_initialized());
    let mut param = Parameter::<f64>::float("test".to_string(), 0.0, ParameterType::DYNAMIC).unwrap();
    assert!(param.set(10.0).is_ok());
    assert!(test_memory.update("test".to_string(), param).is_ok());
    assert!(test_memory.is_initialized());
    let param = test_memory.get(&"test".to_string());
    assert_eq!(param.unwrap().get(), &10.0);
    let param = Parameter::<f64>::float("test".to_string(), 0.0, ParameterType::DYNAMIC).unwrap();
    assert!(test_memory.update("test".to_string(), param).is_ok());
    assert!(!test_memory.is_initialized());
    assert!(test_memory.remove(&"test".to_string()).is_ok());
    let param = Parameter::<f64>::float("test".to_string(), 0.0, ParameterType::DYNAMIC).unwrap();
    assert!(test_memory.update("test".to_string(), param).is_err());
    assert!(test_memory.remove(&"test".to_string()).is_err());
    let param = Parameter::<f64>::float("test".to_string(), 0.0, ParameterType::DYNAMIC).unwrap();
    assert!(test_memory.insert("test".to_string(), param).is_ok());
    assert!(test_memory.remove(&"test".to_string()).is_ok());
    for i in 0..5 {
        let param_name = format!("test_{}", i);
        let param = Parameter::<f64>::float(param_name.clone(), i as f64, ParameterType::DYNAMIC).unwrap();
        assert!(test_memory.insert(param_name.clone(), param).is_ok());
    }
    assert_eq!(test_memory.values().len(), 5);
    test_memory.initialize_unset();
    assert!(test_memory.is_initialized());
    for val in test_memory.values() {
        assert!(val.is_setted());
    }
}

#[test]
fn void() {
    let _a: Memory<State<i64>> = Memory::new();
}

#[test]
fn chain_test_build() {
    let mut builder = ChainBuilder::new();
    let mut chain = builder.create("test_chain".to_string()).unwrap();
    assert_eq!(chain.get_stream_id(), -1);
    assert_ne!(chain.get_task_id(), -1);
    chain.set_stream_id(1);
    assert_eq!(chain.get_stream_id(), 1);
    let mut block = StreamBlock::<f64>::new();
    assert!(block.add_output("test_out".to_string()).is_ok());
    assert!(chain.add_block("test_block".to_string(), &block).is_ok());
    let mut block = StreamBlock::<f64>::new();
    assert!(block.add_output("test_out".to_string()).is_ok());
    assert!(chain.add_block("test_block".to_string(), &block).is_err());
    let mut block = StreamBlock::<f64>::new();
    assert!(block.add_input("test_in".to_string()).is_ok());
    assert!(chain.add_block("test_block".to_string(), &block).is_err());
}

#[test]
fn chain_test_peocess() {
    let mut chain = Chain::new("test_chain".to_string(), 0);
    let mut block = StreamBlock::<f64>::new();
    assert!(block.add_output("test_out".to_string()).is_ok());
    assert!(chain.add_block("test_block_out".to_string(), &block).is_ok());
    assert!(chain.connect("test_block_out".to_string(), "test_block_in".to_string()).is_err());
    let mut block = StreamBlock::<f64>::new();
    assert!(block.add_input("test_in".to_string()).is_ok());
    assert!(chain.add_block("test_block_in".to_string(), &block).is_ok());
    assert!(chain.connect("test_block_out".to_string(), "test_block_in".to_string()).is_ok());
    assert!(chain.initialize().is_err());
    assert!(chain.process().is_err());
}

#[test]
fn create() {
    assert!(Parameter::<i64>::integer("test".to_string(), 0, ParameterType::STATIC).is_ok());
    assert!(Parameter::<f64>::float("test".to_string(), 0.0, ParameterType::STATIC).is_ok());
    assert!(Parameter::<String>::new("test".to_string(), "hello".to_string(), ParameterType::STATIC).is_ok());
}

#[test]
fn set_range() {
    let mut param = Parameter::<i64>::integer("test".to_string(), 0, ParameterType::DYNAMIC).unwrap();
    assert!(param.set_range(-100, ParameterRangeType::RangeStart).is_ok());
    assert!(param.set_range(100, ParameterRangeType::RangeEnd).is_ok());
    assert!(param.set(10).is_ok());
    assert!(param.set(20).is_ok());
    assert!(param.set(110).is_err());
    assert!(param.set(-110).is_err());
    assert!(param.set_range(200, ParameterRangeType::RangeStart).is_err());
    assert!(param.set_range(50, ParameterRangeType::RangeStart).is_ok());
    assert!(param.set_range(60, ParameterRangeType::RangeEnd).is_ok());
    assert!(param.set_range(10, ParameterRangeType::RangeEnd).is_err());
    let mut param = Parameter::<String>::new("test".to_string(), "default".to_string(), ParameterType::DYNAMIC).unwrap();
    assert!(param.set_range("a".to_string(), ParameterRangeType::RangeStart).is_err());
    assert!(param.set_range("d".to_string(), ParameterRangeType::RangeEnd).is_err());
    assert!(param.set_range("a".to_string(), ParameterRangeType::Range).is_ok());
    assert!(param.set_range("b".to_string(), ParameterRangeType::Range).is_ok());
    assert!(param.set_range("c".to_string(), ParameterRangeType::Range).is_ok());
    assert!(param.set("a".to_string()).is_ok());
    assert!(param.set("d".to_string()).is_err());
    let param = Parameter::<f64>::create("test".to_string(), 0.0, ParameterType::DYNAMIC);
    assert!(param.is_ok());
    let mut param = param.unwrap();
    assert!(param.set_range(0.0, ParameterRangeType::RangeEnd).is_ok());
    assert!(param.set(f64::NEG_INFINITY).is_ok());
    assert!(param.set(f64::EPSILON).is_err());
    let param = Parameter::<f64>::create("test".to_string(), 0.0, ParameterType::DYNAMIC);
    assert!(param.is_ok());
    let mut param = param.unwrap();
    assert!(param.set_range(0.0, ParameterRangeType::RangeStart).is_ok());
    assert!(param.set(f64::INFINITY).is_ok());
    assert!(param.set(-f64::EPSILON).is_err());
}

#[test]
fn usage_test() {
    let parameter = Parameter::<f64>::float("test".to_string(), 1.0, ParameterType::DYNAMIC);
    assert!(parameter.is_ok());
    let mut parameter = parameter.unwrap();
    assert!(!parameter.is_setted());
    assert!(parameter.set(10.0).is_ok());
    assert!(parameter.is_setted());
    assert_eq!(parameter.get(), &10.0);
    assert!(parameter.set(3.0).is_ok());
    assert_eq!(parameter.get(), &3.0);

    let parameter = Parameter::<f64>::float("test".to_string(), 1.0, ParameterType::STATIC);
    assert!(parameter.is_ok());
    let mut parameter = parameter.unwrap();
    assert!(!parameter.is_setted());
    assert!(parameter.is_default());
    parameter.default();
    assert!(parameter.is_default());
    assert!(parameter.is_setted());
    assert!(parameter.set(3.0).is_err());
    assert!(parameter.is_default());

    let parameter = Parameter::<f64>::float("test".to_string(), 1.0, ParameterType::STATIC);
    assert!(parameter.is_ok());
    let mut parameter = parameter.unwrap();
    assert!(!parameter.is_setted());
    assert!(parameter.set(3.0).is_ok());
    assert_eq!(parameter.get(), &3.0);
    assert!(!parameter.is_default());
    parameter.default();
    assert!(parameter.is_default());

    let parameter = Parameter::<f64>::float("test".to_string(), 1.0, ParameterType::DYNAMIC);
    assert!(parameter.is_ok());
    let mut parameter = parameter.unwrap();
    assert!(!parameter.is_setted());
    parameter.initialize();
    assert!(parameter.is_default());
    assert!(parameter.is_setted());
}

#[test]
fn test_states() {
    let state = State::<f64>::new("test".to_string());
    assert!(state.is_ok());
    let mut state = state.unwrap();
    assert!(!state.is_initialized());
    assert!(!state.is_setted());
    assert!(state.set(1.0).is_err());
    assert!(state.set_init(1.0).is_ok());
    assert!(state.is_setted());
    assert!(state.set(2.0).is_ok());
    assert_eq!(state.get(), &2.0);
    state.initialize();
    assert_eq!(state.get(), &1.0);
}

#[test]
fn stream_block_test() {
    let mut stream_block = StreamBlock::<i64>::new();
    stream_block.set_stream_id(1);
    assert_eq!(stream_block.get_stream_id(), 1);
    stream_block.set_task_id(1);
    stream_block.set_task_id(2);
    let task_id = stream_block.get_task_id();
    assert_eq!(task_id[0], 1);
    assert_eq!(task_id[1], 2);
}

#[test]
fn stream_block_input_test() {
    let mut stream_block = StreamBlock::<i32>::new();
    assert!(stream_block.add_input("test".to_string()).is_ok());
    assert!(stream_block.add_input("test".to_string()).is_err());
    assert!(stream_block.get_input(&"test".to_string()).is_ok());
}

#[test]
fn stream_block_output_test() {
    let mut stream_block = StreamBlock::<i32>::new();
    assert!(stream_block.add_output("test".to_string()).is_ok());
    assert!(stream_block.add_output("test".to_string()).is_err());
    assert!(stream_block.get_output(&"test".to_string()).is_ok());
}

#[test]
fn stream_block_parameter_test() {
    let mut stream_block = StreamBlock::<i64>::new();
    assert!(stream_block.add_parameter("test".to_string(), ParameterType::DYNAMIC).is_ok());
    assert!(stream_block.add_parameter("test".to_string(), ParameterType::DYNAMIC).is_err());
    assert!(!stream_block.is_initialized());
    assert!(stream_block.initialize().is_err());
    stream_block.set_stream_id(1);
    assert!(stream_block.initialize().is_err());
    stream_block.set_task_id(1);
    assert!(stream_block.initialize().is_ok());
    assert!(stream_block.is_initialized());
    let param = stream_block.get_parameter(&"test".to_string());
    assert!(param.is_ok());
    assert!(stream_block.set_param(&"test".to_string(), 10).is_ok());
    let param = stream_block.get_parameter(&"test".to_string());
    assert_eq!(param.unwrap().get(), &10);
    assert!(stream_block.set_param_value(&"test".to_string(), 13).is_ok());
    assert_eq!(stream_block.get_param_value(&"test".to_string()).unwrap(), &13);
}

#[test]
fn stream_block_state_test() {
    let mut stream_block = StreamBlock::<i64>::new();
    assert!(stream_block.add_state("test".to_string()).is_ok());
    assert!(stream_block.add_state("test".to_string()).is_err());
    let stat = stream_block.get_state(&"test".to_string());
    assert!(stat.is_ok());
    assert!(stream_block.set_state_init(&"test".to_string(), 10).is_ok());
    assert!(stream_block.initialize_state(&"test".to_string()).is_ok());
    let stat = stream_block.get_state(&"test".to_string());
    assert_eq!(stat.unwrap().get(), &10);
    assert!(stream_block.set_state_value(&"test".to_string(), 13).is_ok());
    assert_eq!(stream_block.get_state_value(&"test".to_string()).unwrap(), &13);
}

#[test]
fn block_initialize_keeps_set_data() {
    let mut stream_block = StreamBlock::<i64>::new();
    assert!(stream_block.add_state("unset".to_string()).is_ok());
    assert!(stream_block.add_state("kept".to_string()).is_ok());
    assert!(stream_block.set_state_value(&"unset".to_string(), 13).is_err());
    assert!(stream_block.set_state_init(&"kept".to_string(), 10).is_ok());
    assert!(stream_block.set_state_value(&"kept".to_string(), 13).is_ok());
    stream_block.set_stream_id(1);
    stream_block.set_task_id(1);
    assert!(stream_block.initialize().is_ok());
    assert_eq!(stream_block.get_state_value(&"kept".to_string()).unwrap(), &13);
    assert_eq!(stream_block.get_state_value(&"unset".to_string()).unwrap(), &0);
    assert!(stream_block.set_state_value(&"unset".to_string(), 7).is_ok());
}

#[test]
fn stream_block_interoperability() {
    let mut stream_block_1 = StreamBlock::<String>::new();
    let mut stream_block_2 = StreamBlock::<String>::new();
    assert!(stream_block_1.get_processor_type() == StreamType::NONE);
    assert!(stream_block_1.add_output("test_output".to_string()).is_ok());
    assert!(stream_block_1.get_processor_type() == StreamType::RECEIVER);
    assert!(stream_block_2.add_input("test_input".to_string()).is_ok());
    assert!(stream_block_2.get_processor_type() == StreamType::SENDER);
    assert!(stream_block_2.add_output("test_output_2".to_string()).is_ok());
    assert!(stream_block_2.get_processor_type() == StreamType::BOTH);
    assert!(stream_block_1
        .connect(&"test_output".to_string(), &"test_input".to_string(), &stream_block_2)
        .is_ok());
    assert!(stream_block_1.send_output(&"test_output".to_string(), "Hello".to_string()).is_ok());
    let res = stream_block_2.receive_input(&"test_input".to_string());
    assert!(res.is_ok());
    assert_eq!(res.unwrap(), "Hello".to_string());
}

#[test]
fn stream_block_missing_names() {
    let mut block = StreamBlock::<i64>::new();
    let e = block.get_input(&"x".to_string()).err().unwrap();
    assert!(e.code == K2ErrorCode::NotFound);
    assert_eq!(e.message, "Input not found");
    let e = block.get_output(&"x".to_string()).err().unwrap();
    assert_eq!(e.message, "Output not found");
    let e = block.set_param(&"x".to_string(), 1).err().unwrap();
    assert!(e.code == K2ErrorCode::NotFound);
    let e = block.initialize().err().unwrap();
    assert!(e.code == K2ErrorCode::Uninitialized);
    assert_eq!(e.message, "Stream ID is not set");
}

#[test]
fn error_texts() {
    assert_eq!(processor_error_to_str(&ProcessorError::NoError), "No error");
    assert_eq!(processor_error_to_str(&ProcessorError::RangeValueError), "Value out of range");
    assert_eq!(processor_error_to_str(&ProcessorError::LockError), "Error locking resource");
    let e = K2Error::new(K2ErrorCode::NotFound, "gone");
    assert_eq!(e.message, "gone");
    assert_eq!(ParameterType::STATIC.to_string(), "STATIC");
    assert_eq!(ParameterValueType::FLOAT.to_string(), "FLOAT");
}

#[test]
fn static_parameter_is_set_once() {
    let mut p = Parameter::<i64>::integer("p".to_string(), 5, ParameterType::STATIC).unwrap();
    assert!(p.set(7).is_ok());
    assert_eq!(p.get(), &7);
    assert!(p.set(8).is_err());
    assert_eq!(p.get(), &7);
}

#[test]
fn chain_connections_go_forward() {
    let mut builder = ChainBuilder::new();
    let first = builder.create("a".to_string()).unwrap();
    let second = builder.create("b".to_string()).unwrap();
    assert_eq!(first.get_task_id(), 0);
    assert_eq!(second.get_task_id(), 1);
    let mut chain = Chain::new("c".to_string(), 3);
    for n in ["x", "y", "z"] {
        let mut block = StreamBlock::<i64>::new();
        assert!(block.add_input("in".to_string()).is_ok());
        assert!(chain.add_block(n.to_string(), &block).is_ok());
    }
    assert!(chain.connect("y".to_string(), "z".to_string()).is_ok());
    assert!(chain.connect("x".to_string(), "y".to_string()).is_ok());
    chain.set_stream_id(2);
    assert!(chain.initialize().is_ok());
    let order = chain.process().unwrap();
    assert_eq!(order, vec!["x".to_string(), "y".to_string(), "z".to_string()]);
    let back = chain.finalize();
    assert_eq!(back, vec!["z".to_string(), "y".to_string(), "x".to_string()]);
}

#[test]
fn mode_test() {
    let mut mode = OperativeMode::new("test_mode".to_string(), 1);
    assert_eq!(mode.get_stream_id(), -1);
    let mut chain = Chain::new("test_chain".to_string(), 0);
    let mut block = StreamBlock::<String>::new();
    assert!(block.add_input("test_input".to_string()).is_ok());
    assert!(block.add_output("test_output".to_string()).is_ok());
    assert!(chain.add_block("test_block".to_string(), &block).is_ok());
    assert!(mode.add_chain("test_chain".to_string(), chain).is_ok());
    assert!(mode.add_chain("test_chain".to_string(), Chain::new("test_chain".to_string(), 1)).is_err());
    let chain = mode.get_chain(&"test_chain".to_string());
    assert!(chain.is_ok());
    let blocks = chain.unwrap().get_blocks();
    assert_eq!(blocks.len(), 1);
    assert!(blocks.contains(&"test_block".to_string()));
}

#[test]
fn mode_runs_its_chains() {
    let mut mode = OperativeMode::new("m".to_string(), 2);
    assert!(mode.add_chain("a".to_string(), Chain::new("a".to_string(), 0)).is_ok());
    assert!(mode.initialize().is_err());
    assert!(mode.process().is_err());
    assert!(mode.set_stream_id(4).is_ok());
    assert_eq!(mode.get_chain(&"a".to_string()).unwrap().get_stream_id(), 4);
    assert!(mode.add_chain("b".to_string(), Chain::new("b".to_string(), 1)).is_ok());
    assert_eq!(mode.get_chain(&"b".to_string()).unwrap().get_stream_id(), 4);
    assert!(mode.initialize().is_ok());
    assert!(mode.finalize().is_err());
    let started = mode.process().unwrap();
    assert_eq!(started, vec!["a".to_string(), "b".to_string()]);
    assert!(mode.finalize().is_ok());
    let e = mode.get_chain(&"c".to_string()).err().unwrap();
    assert_eq!(e.message, "Chain not found");
}

#[test]
fn parameter_get_mut_changes_value() {
    let mut p = Parameter::<i64>::integer("p".to_string(), 1, ParameterType::DYNAMIC).unwrap();
    *p.get_mut() = 42;
    assert_eq!(p.get(), &42);
}

#[test]
fn create_stream_controller() {
    let mut ids = StreamIds::new();
    let mut registry = ProcessorRegistry::new();
    let stream = StreamController::create("test".to_string(), &mut ids, &mut registry);
    assert!(stream.is_ok());
    assert!(StreamController::new("test".to_string()).is_err());
    let stream = stream.unwrap();
    assert_eq!(stream.get_stream_id(), 1);
    let second = StreamController::create("other".to_string(), &mut ids, &mut registry).unwrap();
    assert_eq!(second.get_stream_id(), 2);
    assert!(registry.contains("test"));
}

#[test]
fn mode_cntr() {
    let mut ids = StreamIds::new();
    let mut registry = ProcessorRegistry::new();
    let mut stream_cntr = StreamController::create("test".to_string(), &mut ids, &mut registry).unwrap();
    let mut mode = OperativeMode::new("modo1".to_string(), 1);
    assert!(mode.add_chain("name".to_string(), Chain::new("name".to_string(), 0)).is_ok());
    assert!(stream_cntr.add_mode(mode).is_ok());
    let mode = OperativeMode::new("modo1".to_string(), 1);
    assert!(stream_cntr.add_mode(mode).is_err());
    let mode = stream_cntr.get_mode(&"modo1".to_string());
    assert!(mode.is_ok());
    let mode = mode.unwrap();
    assert!(mode.get_chain(&"name".to_string()).is_ok());
    assert_eq!(mode.get_stream_id(), 1);
    let name = stream_cntr.begin_mode_change(&"modo1".to_string()).unwrap();
    assert_eq!(name, "modo1");
    assert_eq!(stream_cntr.finish_mode_change(&name).unwrap(), vec!["name".to_string()]);
    let mode = stream_cntr.get_mode(&"modo2".to_string());
    assert!(mode.is_err());
    assert!(stream_cntr.begin_mode_change(&"modo2".to_string()).is_err());
}

#[test]
fn processor_cntr() {
    let mut ids = StreamIds::new();
    let mut registry = ProcessorRegistry::new();
    let mut chain = Chain::new("test".to_string(), 0);
    let mut stream_cntr = StreamController::create("test".to_string(), &mut ids, &mut registry).unwrap();
    let mut block = StreamBlock::<i64>::new();
    assert!(stream_cntr.add_processor(&mut registry, &mut chain, "test".to_string(), &mut block).is_err());
    let mut block = StreamBlock::<i64>::new();
    assert!(block.add_input("input".to_string()).is_ok());
    assert!(stream_cntr.add_processor(&mut registry, &mut chain, "test_a".to_string(), &mut block).is_ok());
    assert_eq!(block.get_stream_id(), 1);
    assert_eq!(block.get_task_id(), &vec![0isize]);
    assert!(registry.contains("test_a"));
    assert!(!registry.contains("test_1"));
    assert_eq!(chain.get_blocks(), vec!["test_a".to_string()]);
    let mut mode = OperativeMode::new("test".to_string(), 1);
    assert!(mode.add_chain("test".to_string(), chain).is_ok());
    assert!(stream_cntr.add_mode(mode).is_ok());
    assert!(stream_cntr.initialize().is_ok());
}

#[test]
fn command_test() {
    let mut ids = StreamIds::new();
    let mut registry = ProcessorRegistry::new();
    let mut chain = Chain::new("test_chain".to_string(), 0);
    let mut stream_cntr = StreamController::create("test_stream".to_string(), &mut ids, &mut registry).unwrap();
    let mut block = StreamBlock::<i64>::new();
    assert!(stream_cntr.add_processor(&mut registry, &mut chain, "test_1".to_string(), &mut block).is_ok());
    assert!(stream_cntr.add_command(&registry, "test.callback".to_string(), "test_1".to_string()).is_ok());
    assert!(stream_cntr.add_command(&registry, "test.callback".to_string(), "test".to_string()).is_err());
    assert!(stream_cntr.add_command(&registry, "test.callback".to_string(), "test_1".to_string()).is_err());
    let block_name = stream_cntr.execute_command(&"test.callback".to_string());
    assert_eq!(block_name.unwrap(), "test_1");
    assert!(stream_cntr.execute_command(&"test_1.callback".to_string()).is_err());
    assert_eq!(stream_cntr.execute_command(&"init".to_string()).unwrap(), "test_stream");
    let e = stream_cntr.add_command(&registry, "other".to_string(), "ghost".to_string()).err().unwrap();
    assert_eq!(e.message, "Block does not exist");
    let ends = StreamController::connection_ends(&"test_1.output".to_string(), &"test_2.input".to_string()).unwrap();
    assert_eq!(ends.0 .0, "test_1");
    assert_eq!(ends.1 .1, "input");
    let e = StreamController::connection_ends(&"test_1".to_string(), &"test_2.input".to_string()).err().unwrap();
    assert_eq!(e.message, "From connector not found");
}

#[test]
fn stream_controller_runs() {
    let mut ids = StreamIds::new();
    let mut registry = ProcessorRegistry::new();
    let mut stream = StreamController::create("runner".to_string(), &mut ids, &mut registry).unwrap();
    assert_eq!(stream.execute_command(&"init".to_string()).unwrap(), "runner");
    assert_eq!(stream.execute_command(&"stand-by".to_string()).unwrap(), "runner");
    assert!(stream.register_commands().is_ok());
    let e = stream.start_run().err().unwrap();
    assert!(e.code == K2ErrorCode::Uninitialized);
    assert_eq!(e.message, "Stream is not initialized");
    assert!(stream.initialize().is_ok());
    assert!(stream.start_run().is_ok());
    assert!(stream.after_round(Ok(())).is_none());
    match stream.after_round(Err(K2Error::new(K2ErrorCode::ProcessError, "broken"))) {
        Some(Err(e)) => {
            assert!(e.code == K2ErrorCode::ProcessError);
            assert_eq!(e.message, "broken");
        }
        _ => panic!("an error ends the run"),
    }
    assert!(matches!(stream.after_round(Ok(())), Some(Ok(()))));
}

#[test]
fn block_adds_dotted_command() {
    let mut ids = StreamIds::new();
    let mut registry = ProcessorRegistry::new();
    let mut chain = Chain::new("main".to_string(), 0);
    let mut stream_cntr = StreamController::create("stream".to_string(), &mut ids, &mut registry).unwrap();
    let mut block = StreamBlock::<i64>::new();
    assert!(stream_cntr.add_processor(&mut registry, &mut chain, "gain".to_string(), &mut block).is_ok());
    assert!(block.add_command(&mut stream_cntr, &registry, "gain.reset".to_string()).is_ok());
    assert_eq!(stream_cntr.execute_command(&"gain.reset".to_string()).unwrap(), "gain");
    let again = block.add_command(&mut stream_cntr, &registry, "gain.reset".to_string()).unwrap_err();
    assert_eq!(again.message, "Command already exists");
    let missing = block.add_command(&mut stream_cntr, &registry, "other.reset".to_string()).unwrap_err();
    assert_eq!(missing.message, "Block does not exist");
    assert!(stream_cntr.execute_command(&"other.reset".to_string()).is_err());
}

#[test]
fn controller_finalize_needs_started_chains() {
    let mut ids = StreamIds::new();
    let mut registry = ProcessorRegistry::new();
    let mut stream_cntr = StreamController::create("stream".to_string(), &mut ids, &mut registry).unwrap();
    let mut mode = OperativeMode::new("work".to_string(), 1);
    assert!(mode.add_chain("main".to_string(), Chain::new("main".to_string(), 0)).is_ok());
    assert!(stream_cntr.add_mode(mode).is_ok());
    let stopped = stream_cntr.finalize().unwrap_err();
    assert_eq!(stopped.message, "Chain handle not found");
    let name = stream_cntr.begin_mode_change(&"work".to_string()).unwrap();
    assert_eq!(stream_cntr.finish_mode_change(&name).unwrap(), vec!["main".to_string()]);
    assert!(stream_cntr.finalize().is_ok());
}

#[test]
fn set_range_keeps_bounds_in_order() {
    let mut p = Parameter::<i64>::integer("p".to_string(), 5, ParameterType::DYNAMIC).unwrap();
    assert!(p.set_range(1, ParameterRangeType::RangeStart).is_ok());
    assert!(p.set_range(10, ParameterRangeType::RangeEnd).is_ok());
    assert_eq!(p.set_range(11, ParameterRangeType::RangeStart).unwrap_err().code, K2ErrorCode::OutOfRange);
    assert_eq!(p.set_range(0, ParameterRangeType::RangeEnd).unwrap_err().code, K2ErrorCode::OutOfRange);
    assert!(p.set_range(10, ParameterRangeType::RangeStart).is_ok());
    assert!(p.set(10).is_ok());
    assert!(p.set(9).is_err());
}

#[test]
fn integer_parameter_takes_any_value() {
    let mut p = Parameter::<i64>::integer("p".to_string(), 0, ParameterType::DYNAMIC).unwrap();
    assert!(p.set(i64::MIN).is_ok());
    assert!(p.set(i64::MAX).is_ok());
}

#[test]
fn chain_tasks_count_up() {
    let mut builder = ChainBuilder::new();
    let first = builder.create("first".to_string()).unwrap();
    let second = builder.create("second".to_string()).unwrap();
    assert_eq!(first.get_task_id(), 0);
    assert_eq!(second.get_task_id(), first.get_task_id() + 1);
    assert_eq!(first.get_blocks(), Vec::<String>::new());
}

#[test]
fn added_parameter_has_no_bounds() {
    let mut block = StreamBlock::<i64>::new();
    assert!(block.add_parameter("p".to_string(), ParameterType::DYNAMIC).is_ok());
    block.set_stream_id(1);
    block.set_task_id(1);
    assert!(block.initialize().is_ok());
    assert!(block.set_param(&"p".to_string(), i64::MIN).is_ok());
    assert!(block.set_param_value(&"p".to_string(), i64::MAX).is_ok());
    assert_eq!(block.get_param_value(&"p".to_string()).unwrap(), &i64::MAX);
}
